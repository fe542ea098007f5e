//! Editing the level: moving faces, carving and extending from a part of a face, and
//! retexturing a room.
use vstd::prelude::*;

use crate::brush::{
    edge, find_room_brushes, in_room, make_wall_brush, wall_brush, Axis, Brush, Op, Side,
};
use crate::history::next_revision;
use crate::level::{
    hotkeys_of, keys_in_order, stairs_of, Level, LevelView, Stair, StairView,
};
use crate::world::{Mode, World};

verus! {

/// A selected face.
#[derive(Clone, Copy, PartialEq, Eq, Debug, Structural)]
pub struct Selection {
    pub region_id: u32,
    pub brush_id: u32,
    pub axis: Axis,
    pub side: Side,
}

#[derive(Clone, Copy, PartialEq, Eq, Debug, Structural)]
pub enum SubOp {
    Push,
    Pull,
}

/// A carve or an extension in progress: the box it spawned, which further presses grow.
#[derive(Clone, Copy, PartialEq, Eq, Debug, Structural)]
pub struct ActiveOp {
    pub brush_id: u32,
    pub op: SubOp,
    pub side: Side,
}

/// A rectangle on a face.
#[derive(Clone, Copy, PartialEq, Eq, Debug, Structural)]
pub struct Bounds {
    pub u0: i32,
    pub u1: i32,
    pub v0: i32,
    pub v1: i32,
}

impl Bounds {
    /// The rectangle has an extent that fits the grid.
    pub open spec fn wf(self) -> bool {
        0 <= self.u1 - self.u0 <= i32::MAX && 0 <= self.v1 - self.v0 <= i32::MAX
    }
}

/// The extent of a face, the plane it lies in, and the texture it wears.
#[derive(Clone, Copy, PartialEq, Eq, Debug, Structural)]
pub struct FaceInfo {
    pub u_axis: Axis,
    pub v_axis: Axis,
    pub u_min: i32,
    pub u_max: i32,
    pub v_min: i32,
    pub v_max: i32,
    pub position: i32,
    pub scheme: usize,
}

impl FaceInfo {
    pub open spec fn wf(self) -> bool {
        0 <= self.u_max - self.u_min <= i32::MAX && 0 <= self.v_max - self.v_min <= i32::MAX
    }

    pub open spec fn u_size(self) -> int {
        self.u_max - self.u_min
    }

    pub open spec fn v_size(self) -> int {
        self.v_max - self.v_min
    }
}

/// What the editor has selected. A selection size of zero or less stands for the full face.
#[derive(Clone, Copy, PartialEq, Eq, Debug, Structural)]
pub struct Editor {
    pub selected: Option<Selection>,
    pub sel_size_u: i32,
    pub sel_size_v: i32,
    pub sel_bounds: Option<Bounds>,
    pub active: Option<ActiveOp>,
    /// The step count of a flight of stairs that is not confirmed yet.
    pub pending_stair: Option<u32>,
    /// Whether the faces in one plane with the selected one move with it.
    pub patch_scope: bool,
    /// Whether a tool that cuts or places something is in hand.
    pub tool_armed: bool,
}

impl Editor {
    pub open spec fn wf(self) -> bool {
        self.sel_bounds matches Some(b) ==> b.wf()
    }

    /// The editor without the state of a partial selection.
    pub open spec fn without_subface(self) -> Editor {
        Editor {
            sel_size_u: 0,
            sel_size_v: 0,
            sel_bounds: None,
            active: None,
            pending_stair: None,
            ..self
        }
    }

    /// The editor with nothing selected and no tool in hand.
    pub open spec fn cleared(self) -> Editor {
        Editor { selected: None, tool_armed: false, ..self.without_subface() }
    }

    /// The editor with nothing in hand.
    pub open spec fn fresh() -> Editor {
        Editor {
            selected: None,
            sel_size_u: 0,
            sel_size_v: 0,
            sel_bounds: None,
            active: None,
            pending_stair: None,
            patch_scope: false,
            tool_armed: false,
        }
    }

    pub fn new() -> (e: Editor)
        ensures
            e == Editor::fresh(),
    {
        Editor {
            selected: None,
            sel_size_u: 0,
            sel_size_v: 0,
            sel_bounds: None,
            active: None,
            pending_stair: None,
            patch_scope: false,
            tool_armed: false,
        }
    }

    /// Forgets a partial selection and any carve in progress.
    pub fn reset_subface(&mut self)
        ensures
            *final(self) == old(self).without_subface(),
    {
        self.sel_size_u = 0;
        self.sel_size_v = 0;
        self.sel_bounds = None;
        self.active = None;
        self.pending_stair = None;
    }

    /// Forgets everything that points at geometry.
    pub fn clear(&mut self)
        ensures
            *final(self) == old(self).cleared(),
    {
        self.selected = None;
        self.tool_armed = false;
        self.reset_subface();
    }
}

/// The extent that a selection size stands for on a face of extent `full`.
pub open spec fn chosen_size(size: int, full: int) -> int {
    if size <= 0 || size > full {
        full
    } else {
        size
    }
}

/// Where a selection of extent `size` starts when it is centred on `min..min+full`; half a
/// unit rounds up.
pub open spec fn centred_start(min: int, full: int, size: int) -> int {
    min + (full - size + 1) / 2
}

/// The rectangle that a carve uses: the one on show, or the selection size centred.
pub open spec fn carve_bounds(e: Editor, info: FaceInfo) -> Bounds {
    match e.sel_bounds {
        Some(b) => b,
        None => {
            let su = chosen_size(e.sel_size_u as int, info.u_size());
            let sv = chosen_size(e.sel_size_v as int, info.v_size());
            let u0 = centred_start(info.u_min as int, info.u_size(), su);
            let v0 = centred_start(info.v_min as int, info.v_size(), sv);
            Bounds { u0: u0 as i32, u1: (u0 + su) as i32, v0: v0 as i32, v1: (v0 + sv) as i32 }
        },
    }
}

/// `n / d` to the nearest whole number, a tie going away from zero.
pub open spec fn round_away(n: int, d: int) -> int {
    if n >= 0 {
        (2 * n + d) / (2 * d)
    } else {
        -((-2 * n + d) / (2 * d))
    }
}

/// `v` moved into `lo..=hi`.
pub open spec fn clamped(v: int, lo: int, hi: int) -> int {
    if v < lo {
        lo
    } else if v > hi {
        hi
    } else {
        v
    }
}

/// Where a selection of extent `size` starts when it follows the crosshair, which is at
/// `hit` thousandths of a grid unit, and stays on the face.
pub open spec fn follow_start(hit: int, size: int, min: int, max: int) -> int {
    clamped(round_away(hit - 500 * size, 1000), min, max - size)
}

/// The rectangle that follows the crosshair.
pub open spec fn follow_bounds(e: Editor, info: FaceInfo, hit_u: int, hit_v: int) -> Bounds {
    let su = chosen_size(e.sel_size_u as int, info.u_size());
    let sv = chosen_size(e.sel_size_v as int, info.v_size());
    let u0 = follow_start(hit_u, su, info.u_min as int, info.u_max as int);
    let v0 = follow_start(hit_v, sv, info.v_min as int, info.v_max as int);
    Bounds { u0: u0 as i32, u1: (u0 + su) as i32, v0: v0 as i32, v1: (v0 + sv) as i32 }
}

fn choose_size(size: i32, full: i64) -> (s: i64)
    requires
        0 <= full <= i32::MAX,
    ensures
        s == chosen_size(size as int, full as int),
        0 <= s <= full,
{
    if size <= 0 || size as i64 > full {
        full
    } else {
        size as i64
    }
}

fn follow(hit: i64, size: i64, min: i64, max: i64) -> (s: i64)
    requires
        0 <= size <= max - min,
        i32::MIN <= min <= max <= i32::MAX,
        -0x1_0000_0000_0000 <= hit <= 0x1_0000_0000_0000,
    ensures
        s == follow_start(hit as int, size as int, min as int, max as int),
        min <= s <= max - size,
{
    let n: i64 = hit - 500 * size;
    let m: i64 = if n >= 0 {
        n
    } else {
        -n
    };
    let q: i64 = (2 * m + 1000) / 2000;
    let r: i64 = if n >= 0 {
        q
    } else {
        -q
    };
    if r < min {
        min
    } else if r > max - size {
        max - size
    } else {
        r
    }
}

/// The new size of one side of the selection after a nudge; a nudge of zero leaves it.
pub open spec fn nudged(size: int, by: int, full: int) -> int {
    if by == 0 {
        size
    } else {
        clamped(
            (if size <= 0 {
                full
            } else {
                size
            }) + by,
            1,
            full,
        )
    }
}

fn nudge(size: i32, by: i32, full: i64) -> (s: i32)
    requires
        0 <= full <= i32::MAX,
        by != 0 ==> full >= 1,
    ensures
        s == nudged(size as int, by as int, full as int),
{
    if by == 0 {
        return size;
    }
    let from: i64 = if size <= 0 {
        full
    } else {
        size as i64
    };
    let to: i64 = from + by as i64;
    if to < 1 {
        1
    } else if to > full {
        full as i32
    } else {
        to as i32
    }
}

/// The face that an edit acts on, as it was resolved under the crosshair: the selection,
/// whether it covers the whole patch, the boxes whose faces make up the patch, and the
/// patch's extent when it has one.
pub struct FaceTarget {
    pub sel: Selection,
    pub full_face: bool,
    pub members: Vec<u32>,
    pub info: Option<FaceInfo>,
}

/// The boxes with one face of each member moved.
pub open spec fn members_moved(
    brushes: Seq<Brush>,
    ids: Seq<u32>,
    axis: Axis,
    side: Side,
    by: int,
) -> Seq<Brush> {
    brushes.map_values(
        |b: Brush|
            if ids.contains(b.id) {
                b.pushed(axis, side, by)
            } else {
                b
            },
    )
}

/// Whether some box is a member.
pub open spec fn some_member(brushes: Seq<Brush>, ids: Seq<u32>) -> bool {
    exists|k: int| 0 <= k < brushes.len() && ids.contains((#[trigger] brushes[k]).id)
}

/// Whether a member is no thicker than `step`.
pub open spec fn some_thin_member(brushes: Seq<Brush>, ids: Seq<u32>, axis: Axis, step: int) -> bool {
    exists|k: int|
        0 <= k < brushes.len() && ids.contains((#[trigger] brushes[k]).id) && brushes[k].size(axis)
            <= step
}

/// Whether every member stays on the grid when its face moves.
pub open spec fn members_fit(
    brushes: Seq<Brush>,
    ids: Seq<u32>,
    axis: Axis,
    side: Side,
    by: int,
) -> bool {
    forall|k: int|
        0 <= k < brushes.len() && ids.contains((#[trigger] brushes[k]).id) ==> brushes[k].can_push(
            axis,
            side,
            by,
        )
}

fn holds(ids: &Vec<u32>, id: u32) -> (b: bool)
    ensures
        b == ids@.contains(id),
{
    let mut k: usize = 0;
    while k < ids.len()
        invariant
            k <= ids@.len(),
            forall|j: int| 0 <= j < k ==> ids@[j] != id,
        decreases ids@.len() - k,
    {
        if ids[k] == id {
            assert(ids@[k as int] == id);
            return true;
        }
        k = k + 1;
    }
    false
}

/// Moves one face of each member, outward for a positive step and inward for a negative one;
/// tells whether there was a member.
fn move_members(brushes: &mut Vec<Brush>, ids: &Vec<u32>, axis: Axis, side: Side, by: i32) -> (
    moved: bool)
    requires
        members_fit(old(brushes)@, ids@, axis, side, by as int),
    ensures
        final(brushes)@ == members_moved(old(brushes)@, ids@, axis, side, by as int),
        moved == some_member(old(brushes)@, ids@),
{
    let mut moved: bool = false;
    let mut k: usize = 0;
    while k < brushes.len()
        invariant
            k <= brushes@.len(),
            brushes@.len() == old(brushes)@.len(),
            members_fit(old(brushes)@, ids@, axis, side, by as int),
            forall|j: int|
                0 <= j < k ==> #[trigger] brushes@[j] == members_moved(
                    old(brushes)@,
                    ids@,
                    axis,
                    side,
                    by as int,
                )[j],
            forall|j: int| k <= j < brushes@.len() ==> #[trigger] brushes@[j] == old(brushes)@[j],
            moved == exists|j: int|
                0 <= j < k && ids@.contains((#[trigger] old(brushes)@[j]).id),
        decreases brushes@.len() - k,
    {
        let mut b: Brush = brushes[k];
        assert(b == old(brushes)@[k as int]);
        if holds(ids, b.id) {
            b.push_face(axis, side, by);
            brushes.set(k, b);
            moved = true;
        }
        k = k + 1;
    }
    assert(brushes@ =~= members_moved(old(brushes)@, ids@, axis, side, by as int));
    moved
}

fn any_thin(brushes: &Vec<Brush>, ids: &Vec<u32>, axis: Axis, step: i32) -> (b: bool)
    ensures
        b == some_thin_member(brushes@, ids@, axis, step as int),
{
    let mut k: usize = 0;
    while k < brushes.len()
        invariant
            k <= brushes@.len(),
            forall|j: int|
                0 <= j < k && ids@.contains((#[trigger] brushes@[j]).id) ==> brushes@[j].size(axis)
                    > step,
        decreases brushes@.len() - k,
    {
        let b: Brush = brushes[k];
        if holds(ids, b.id) && b.dim(axis) <= step {
            assert(ids@.contains(brushes@[k as int].id) && brushes@[k as int].size(axis) <= step);
            return true;
        }
        k = k + 1;
    }
    false
}

/// The box that a carve or an extension of `depth` spawns on a face.
pub open spec fn sub_face_brush(
    id: u32,
    op: Op,
    depth: int,
    sel: Selection,
    info: FaceInfo,
    b: Bounds,
) -> Brush {
    let a = if (op == Op::Subtract) == (sel.side == Side::Max) {
        info.position as int
    } else {
        info.position - depth
    };
    let w = wall_brush(
        id,
        sel.axis,
        a as i32,
        depth as i32,
        info.u_axis,
        b.u0,
        (b.u1 - b.u0) as i32,
        info.v_axis,
        b.v0,
        (b.v1 - b.v0) as i32,
    );
    Brush { op, scheme: info.scheme, ..w }
}

/// The face of the active box that further presses move away from.
pub open spec fn active_face(sel: Selection, active: ActiveOp, side: Side) -> Selection {
    Selection { region_id: sel.region_id, brush_id: active.brush_id, axis: sel.axis, side }
}

/// The side that the active box grows on.
pub open spec fn grow_side(active: ActiveOp) -> Side {
    match active.op {
        SubOp::Push => active.side,
        SubOp::Pull => active.side.other(),
    }
}

/// The editor after a carve in progress took a step.
pub open spec fn after_sub_face(e: Editor, sel: Selection, active: ActiveOp) -> Editor {
    Editor {
        selected: Some(active_face(sel, active, grow_side(active))),
        active: Some(active),
        sel_size_u: 0,
        sel_size_v: 0,
        sel_bounds: None,
        ..e
    }
}

/// Whether two levels differ at most in their boxes and the id that is handed out next.
pub open spec fn same_but_brushes(a: LevelView, b: LevelView) -> bool {
    a == (LevelView { brushes: a.brushes, next_brush_id: a.next_brush_id, ..b })
}

/// What [`World::push`] and [`World::pull`] do on a part of a face: the level's boxes, the
/// id handed out next, the editor, and the box to rebuild.
pub open spec fn is_sub_face_step(
    before: World,
    after: World,
    t: FaceTarget,
    op: SubOp,
    step: int,
    affected: Seq<u32>,
) -> bool {
    let continuing = before.edit.active matches Some(a) && a.op == op;
    let csg = match op {
        SubOp::Push => Op::Subtract,
        SubOp::Pull => Op::Add,
    };
    if continuing {
        let active = before.edit.active->0;
        &&& after.level@.brushes == members_moved(
            before.level@.brushes,
            seq![active.brush_id],
            t.sel.axis,
            grow_side(active),
            step,
        )
        &&& after.level.next_brush_id == before.level.next_brush_id
        &&& after.edit == match op {
            SubOp::Push => after_sub_face(before.edit, t.sel, active),
            SubOp::Pull => Editor {
                selected: Some(active_face(t.sel, active, grow_side(active))),
                ..before.edit
            },
        }
        &&& affected == seq![active.brush_id]
    } else {
        match t.info {
            None => after == before && affected.len() == 0,
            Some(info) => {
                let id = before.level.next_brush_id;
                let active = ActiveOp { brush_id: id, op, side: t.sel.side };
                &&& after.level@.brushes == before.level@.brushes.push(
                    sub_face_brush(id, csg, step, t.sel, info, carve_bounds(before.edit, info)),
                )
                &&& after.level.next_brush_id == id + 1
                &&& after.edit == after_sub_face(before.edit, t.sel, active)
                &&& affected == seq![id]
            },
        }
    }
}

/// What moving the members of a full face by `by` does.
pub open spec fn is_patch_step(
    before: World,
    after: World,
    t: FaceTarget,
    by: int,
    affected: Seq<u32>,
) -> bool {
    if some_member(before.level@.brushes, t.members@) {
        &&& after.level@.brushes == members_moved(
            before.level@.brushes,
            t.members@,
            t.sel.axis,
            t.sel.side,
            by,
        )
        &&& after.level.next_brush_id == before.level.next_brush_id
        &&& after.edit == (Editor { active: None, ..before.edit })
        &&& affected == t.members@
    } else {
        after == before && affected.len() == 0
    }
}

/// The machine limits of an edit on `t`: what it moves or spawns stays on the grid.
pub open spec fn step_fits(w: World, t: FaceTarget, op: SubOp, step: int) -> bool {
    let signed = match op {
        SubOp::Push => step,
        SubOp::Pull => -step,
    };
    &&& t.full_face ==> members_fit(
        w.level@.brushes,
        t.members@,
        t.sel.axis,
        t.sel.side,
        signed,
    )
    &&& (w.edit.active matches Some(a) ==> members_fit(
        w.level@.brushes,
        seq![a.brush_id],
        t.sel.axis,
        grow_side(a),
        step,
    ))
    &&& (t.info matches Some(i) ==> i.wf() && i32::MIN <= i.position - step <= i32::MAX)
    &&& w.level.next_brush_id < u32::MAX
}

impl World {
    /// Grows or shrinks the selection on the face, starting from the full face. Any carve in
    /// progress ends. Nothing happens without a face.
    pub fn adjust_selection_size(&mut self, du: i32, dv: i32, info: Option<FaceInfo>)
        requires
            info matches Some(i) ==> i.wf() && (du != 0 ==> i.u_size() >= 1) && (dv != 0
                ==> i.v_size() >= 1),
        ensures
            match info {
                None => *final(self) == *old(self),
                Some(i) => *final(self) == (World {
                    edit: Editor {
                        sel_size_u: nudged(old(self).edit.sel_size_u as int, du as int, i.u_size()) as i32,
                        sel_size_v: nudged(old(self).edit.sel_size_v as int, dv as int, i.v_size()) as i32,
                        active: None,
                        ..old(self).edit
                    },
                    ..*old(self)
                }),
            },
    {
        if let Some(i) = info {
            let full_u: i64 = i.u_max as i64 - i.u_min as i64;
            let full_v: i64 = i.v_max as i64 - i.v_min as i64;
            self.edit.sel_size_u = nudge(self.edit.sel_size_u, du, full_u);
            self.edit.sel_size_v = nudge(self.edit.sel_size_v, dv, full_v);
            self.edit.active = None;
        }
    }

    /// The rectangle that a carve uses, which is then the one on show.
    pub fn ensure_selection_bounds(&mut self, info: Option<FaceInfo>) -> (b: Option<Bounds>)
        requires
            old(self).edit.wf(),
            info matches Some(i) ==> i.wf(),
        ensures
            b == match (old(self).edit.sel_bounds, info) {
                (Some(b), _) => Some(b),
                (None, Some(i)) => Some(carve_bounds(old(self).edit, i)),
                (None, None) => None,
            },
            *final(self) == (World {
                edit: Editor { sel_bounds: b, ..old(self).edit },
                ..*old(self)
            }),
            final(self).edit.wf(),
    {
        if self.edit.sel_bounds.is_some() {
            return self.edit.sel_bounds;
        }
        match info {
            None => None,
            Some(i) => {
                let full_u: i64 = i.u_max as i64 - i.u_min as i64;
                let full_v: i64 = i.v_max as i64 - i.v_min as i64;
                let su: i64 = choose_size(self.edit.sel_size_u, full_u);
                let sv: i64 = choose_size(self.edit.sel_size_v, full_v);
                let u0: i64 = i.u_min as i64 + (full_u - su + 1) / 2;
                let v0: i64 = i.v_min as i64 + (full_v - sv + 1) / 2;
                let b: Bounds = Bounds {
                    u0: u0 as i32,
                    u1: (u0 + su) as i32,
                    v0: v0 as i32,
                    v1: (v0 + sv) as i32,
                };
                self.edit.sel_bounds = Some(b);
                Some(b)
            },
        }
    }

    /// Lets the selection rectangle follow the crosshair, which is on `hit_sel` at the given
    /// thousandths of a grid unit. It follows while the crosshair is on the selected face, or
    /// on a member of its patch when patches move together.
    pub fn update_selection_preview(
        &mut self,
        hit_sel: Option<Selection>,
        hit_u: i64,
        hit_v: i64,
        members: &Vec<u32>,
        info: Option<FaceInfo>,
    ) -> (b: Option<Bounds>)
        requires
            info matches Some(i) ==> i.wf(),
            -0x1_0000_0000_0000 <= hit_u <= 0x1_0000_0000_0000,
            -0x1_0000_0000_0000 <= hit_v <= 0x1_0000_0000_0000,
        ensures
            b == match (old(self).edit.selected, hit_sel, info) {
                (Some(sel), Some(hit), Some(i)) => if old(self).mode == Mode::Build && (sel == hit
                    || (old(self).edit.patch_scope && hit.axis == sel.axis && hit.side == sel.side
                    && members@.contains(hit.brush_id))) {
                    Some(follow_bounds(old(self).edit, i, hit_u as int, hit_v as int))
                } else {
                    None
                },
                _ => None,
            },
            *final(self) == (World {
                edit: Editor {
                    sel_bounds: if b is Some {
                        b
                    } else {
                        old(self).edit.sel_bounds
                    },
                    ..old(self).edit
                },
                ..*old(self)
            }),
    {
        if self.mode != Mode::Build {
            return None;
        }
        match (self.edit.selected, hit_sel, info) {
            (Some(sel), Some(hit), Some(i)) => {
                let on_patch: bool = self.edit.patch_scope && hit.axis == sel.axis && hit.side
                    == sel.side && holds(members, hit.brush_id);
                if sel != hit && !on_patch {
                    return None;
                }
                let full_u: i64 = i.u_max as i64 - i.u_min as i64;
                let full_v: i64 = i.v_max as i64 - i.v_min as i64;
                let su: i64 = choose_size(self.edit.sel_size_u, full_u);
                let sv: i64 = choose_size(self.edit.sel_size_v, full_v);
                let u0: i64 = follow(hit_u, su, i.u_min as i64, i.u_max as i64);
                let v0: i64 = follow(hit_v, sv, i.v_min as i64, i.v_max as i64);
                let b: Bounds = Bounds {
                    u0: u0 as i32,
                    u1: (u0 + su) as i32,
                    v0: v0 as i32,
                    v1: (v0 + sv) as i32,
                };
                self.edit.sel_bounds = Some(b);
                Some(b)
            },
            _ => None,
        }
    }

    /// Spawns the box of a carve or an extension.
    fn create_sub_face_brush(&mut self, op: Op, depth: i32, sel: Selection, info: FaceInfo) -> (
        id: u32)
        requires
            old(self).edit.wf(),
            info.wf(),
            i32::MIN <= info.position - depth <= i32::MAX,
            old(self).level.next_brush_id < u32::MAX,
        ensures
            id == old(self).level.next_brush_id,
            final(self).level@ == (LevelView {
                brushes: old(self).level@.brushes.push(
                    sub_face_brush(
                        id,
                        op,
                        depth as int,
                        sel,
                        info,
                        carve_bounds(old(self).edit, info),
                    ),
                ),
                next_brush_id: (id + 1) as u32,
                ..old(self).level@
            }),
            *final(self) == (World {
                level: final(self).level,
                edit: Editor {
                    sel_bounds: Some(carve_bounds(old(self).edit, info)),
                    ..old(self).edit
                },
                ..*old(self)
            }),
    {
        let b: Bounds = self.ensure_selection_bounds(Some(info)).unwrap();
        let a: i32 = if (op == Op::Subtract) == (sel.side == Side::Max) {
            info.position
        } else {
            info.position - depth
        };
        let id: u32 = self.level.next_brush_id;
        let mut brush: Brush = make_wall_brush(
            id,
            sel.axis,
            a,
            depth,
            info.u_axis,
            b.u0,
            b.u1 - b.u0,
            info.v_axis,
            b.v0,
            b.v1 - b.v0,
        );
        brush.op = op;
        brush.scheme = info.scheme;
        self.level.brushes.push(brush);
        self.level.next_brush_id = id + 1;
        id
    }

    /// Grows the active box by `amount`.
    fn grow_active_brush(&mut self, active: ActiveOp, sel: Selection, amount: i32)
        requires
            members_fit(
                old(self).level@.brushes,
                seq![active.brush_id],
                sel.axis,
                grow_side(active),
                amount as int,
            ),
        ensures
            final(self).level@ == (LevelView {
                brushes: members_moved(
                    old(self).level@.brushes,
                    seq![active.brush_id],
                    sel.axis,
                    grow_side(active),
                    amount as int,
                ),
                ..old(self).level@
            }),
            *final(self) == (World { level: final(self).level, ..*old(self) }),
    {
        let side: Side = match active.op {
            SubOp::Push => active.side,
            SubOp::Pull => active.side.flip(),
        };
        let mut ids: Vec<u32> = Vec::new();
        ids.push(active.brush_id);
        assert(ids@ =~= seq![active.brush_id]);
        move_members(&mut self.level.brushes, &ids, sel.axis, side, amount);
    }

    /// Moves the selected face outward: the whole patch when the full face is selected, a
    /// carve from the selection rectangle otherwise, which further presses deepen. The result
    /// is the boxes whose regions have to be rebuilt; it is empty when nothing happened.
    pub fn push(&mut self, step: i32, target: Option<FaceTarget>) -> (affected: Vec<u32>)
        requires
            old(self).edit.wf(),
            target matches Some(t) ==> step_fits(*old(self), t, SubOp::Push, step as int),
        ensures
            match target {
                None => *final(self) == *old(self) && affected@.len() == 0,
                Some(t) => if t.full_face {
                    is_patch_step(*old(self), *final(self), t, step as int, affected@)
                } else {
                    is_sub_face_step(
                        *old(self),
                        *final(self),
                        t,
                        SubOp::Push,
                        step as int,
                        affected@,
                    )
                },
            },
            same_but_brushes(final(self).level@, old(self).level@),
            *final(self) == (World {
                level: final(self).level,
                edit: final(self).edit,
                ..*old(self)
            }),
            final(self).edit.wf(),
            old(self).level@.wf() ==> final(self).level@.wf(),
            old(self).wf() ==> final(self).wf(),
    {
        let t: FaceTarget = match target {
            Some(t) => t,
            None => return Vec::new(),
        };
        if t.full_face {
            return self.move_patch(t, step);
        }
        let active: ActiveOp = match self.edit.active {
            Some(a) if a.op == SubOp::Push => {
                self.grow_active_brush(a, t.sel, step);
                a
            },
            _ => {
                match t.info {
                    None => return Vec::new(),
                    Some(info) => {
                        let id: u32 = self.create_sub_face_brush(Op::Subtract, step, t.sel, info);
                        ActiveOp { brush_id: id, op: SubOp::Push, side: t.sel.side }
                    },
                }
            },
        };
        self.settle_sub_face(t.sel, active);
        let mut affected: Vec<u32> = Vec::new();
        affected.push(active.brush_id);
        assert(affected@ =~= seq![active.brush_id]);
        affected
    }

    fn settle_sub_face(&mut self, sel: Selection, active: ActiveOp)
        ensures
            *final(self) == (World {
                edit: after_sub_face(old(self).edit, sel, active),
                ..*old(self)
            }),
    {
        let side: Side = match active.op {
            SubOp::Push => active.side,
            SubOp::Pull => active.side.flip(),
        };
        self.edit.active = Some(active);
        self.edit.selected = Some(
            Selection {
                region_id: sel.region_id,
                brush_id: active.brush_id,
                axis: sel.axis,
                side,
            },
        );
        self.edit.sel_size_u = 0;
        self.edit.sel_size_v = 0;
        self.edit.sel_bounds = None;
    }

    fn move_patch(&mut self, t: FaceTarget, by: i32) -> (affected: Vec<u32>)
        requires
            members_fit(old(self).level@.brushes, t.members@, t.sel.axis, t.sel.side, by as int),
        ensures
            is_patch_step(*old(self), *final(self), t, by as int, affected@),
            same_but_brushes(final(self).level@, old(self).level@),
            *final(self) == (World {
                level: final(self).level,
                edit: final(self).edit,
                ..*old(self)
            }),
            old(self).edit.wf() ==> final(self).edit.wf(),
            old(self).level@.wf() ==> final(self).level@.wf(),
    {
        if !any_member(&self.level.brushes, &t.members) {
            return Vec::new();
        }
        move_members(&mut self.level.brushes, &t.members, t.sel.axis, t.sel.side, by);
        self.edit.active = None;
        t.members
    }

    /// Moves the selected face inward. A pull in progress continues; otherwise the whole
    /// patch moves, or none of it when one member is too thin; otherwise a solid grows out of
    /// the selection rectangle.
    pub fn pull(&mut self, step: i32, target: Option<FaceTarget>) -> (affected: Vec<u32>)
        requires
            old(self).edit.wf(),
            step > i32::MIN,
            target matches Some(t) ==> step_fits(*old(self), t, SubOp::Pull, step as int),
        ensures
            match target {
                None => *final(self) == *old(self) && affected@.len() == 0,
                Some(t) => if t.full_face && !(old(self).edit.active matches Some(a) && a.op
                    == SubOp::Pull) {
                    if some_thin_member(
                        old(self).level@.brushes,
                        t.members@,
                        t.sel.axis,
                        step as int,
                    ) {
                        *final(self) == *old(self) && affected@.len() == 0
                    } else {
                        is_patch_step(*old(self), *final(self), t, -step, affected@)
                    }
                } else {
                    is_sub_face_step(
                        *old(self),
                        *final(self),
                        t,
                        SubOp::Pull,
                        step as int,
                        affected@,
                    )
                },
            },
            same_but_brushes(final(self).level@, old(self).level@),
            *final(self) == (World {
                level: final(self).level,
                edit: final(self).edit,
                ..*old(self)
            }),
            final(self).edit.wf(),
            old(self).level@.wf() ==> final(self).level@.wf(),
            old(self).wf() ==> final(self).wf(),
    {
        let t: FaceTarget = match target {
            Some(t) => t,
            None => return Vec::new(),
        };
        let pulling: bool = match self.edit.active {
            Some(a) => a.op == SubOp::Pull,
            None => false,
        };
        if t.full_face && !pulling {
            if any_thin(&self.level.brushes, &t.members, t.sel.axis, step) {
                return Vec::new();
            }
            return self.move_patch(t, -step);
        }
        self.pull_sub_face(t, step)
    }

    /// The pull of a selection rectangle: the pull in progress grows further, and a new one
    /// starts a solid.
    fn pull_sub_face(&mut self, t: FaceTarget, step: i32) -> (affected: Vec<u32>)
        requires
            old(self).edit.wf(),
            step_fits(*old(self), t, SubOp::Pull, step as int),
            t.full_face ==> (old(self).edit.active matches Some(a) && a.op == SubOp::Pull),
        ensures
            is_sub_face_step(*old(self), *final(self), t, SubOp::Pull, step as int, affected@),
            same_but_brushes(final(self).level@, old(self).level@),
            *final(self) == (World {
                level: final(self).level,
                edit: final(self).edit,
                ..*old(self)
            }),
            final(self).edit.wf(),
            old(self).level@.wf() ==> final(self).level@.wf(),
    {
        if let Some(a) = self.edit.active {
            if a.op == SubOp::Pull {
                self.grow_active_brush(a, t.sel, step);
                self.edit.selected = Some(
                    Selection {
                        region_id: t.sel.region_id,
                        brush_id: a.brush_id,
                        axis: t.sel.axis,
                        side: a.side.flip(),
                    },
                );
                let mut affected: Vec<u32> = Vec::new();
                affected.push(a.brush_id);
                assert(affected@ =~= seq![a.brush_id]);
                return affected;
            }
        }
        match t.info {
            None => Vec::new(),
            Some(info) => {
                let id: u32 = self.create_sub_face_brush(Op::Add, step, t.sel, info);
                let active: ActiveOp = ActiveOp { brush_id: id, op: SubOp::Pull, side: t.sel.side };
                self.settle_sub_face(t.sel, active);
                let mut affected: Vec<u32> = Vec::new();
                affected.push(id);
                assert(affected@ =~= seq![id]);
                affected
            },
        }
    }
}

fn any_member(brushes: &Vec<Brush>, ids: &Vec<u32>) -> (b: bool)
    ensures
        b == some_member(brushes@, ids@),
{
    let mut k: usize = 0;
    while k < brushes.len()
        invariant
            k <= brushes@.len(),
            forall|j: int| 0 <= j < k ==> !ids@.contains((#[trigger] brushes@[j]).id),
        decreases brushes@.len() - k,
    {
        if holds(ids, brushes[k].id) {
            assert(ids@.contains(brushes@[k as int].id));
            return true;
        }
        k = k + 1;
    }
    false
}

/// Pulling a patch that was just pushed gives every box back.
pub proof fn pull_gives_back_a_pushed_patch(
    brushes: Seq<Brush>,
    ids: Seq<u32>,
    axis: Axis,
    side: Side,
    by: int,
)
    requires
        members_fit(brushes, ids, axis, side, by),
    ensures
        members_moved(members_moved(brushes, ids, axis, side, by), ids, axis, side, -by) == brushes,
{
    assert forall|k: int| 0 <= k < brushes.len() implies members_moved(
        members_moved(brushes, ids, axis, side, by),
        ids,
        axis,
        side,
        -by,
    )[k] == brushes[k] by {
        if ids.contains(brushes[k].id) {
            crate::brush::pull_undoes_push(brushes[k], axis, side, by);
        }
    }
    assert(members_moved(members_moved(brushes, ids, axis, side, by), ids, axis, side, -by)
        =~= brushes);
}

/// A patch stays in one plane however far it is moved.
pub proof fn a_patch_stays_coplanar(
    brushes: Seq<Brush>,
    ids: Seq<u32>,
    axis: Axis,
    side: Side,
    by: int,
    i: int,
    j: int,
)
    requires
        members_fit(brushes, ids, axis, side, by),
        0 <= i < brushes.len(),
        0 <= j < brushes.len(),
        ids.contains(brushes[i].id),
        ids.contains(brushes[j].id),
        brushes[i].face(axis, side) == brushes[j].face(axis, side),
    ensures
        members_moved(brushes, ids, axis, side, by)[i].face(axis, side) == members_moved(
            brushes,
            ids,
            axis,
            side,
            by,
        )[j].face(axis, side),
{
    crate::brush::push_moves_one_face(brushes[i], axis, side, by, axis);
    crate::brush::push_moves_one_face(brushes[j], axis, side, by, axis);
}

/// A pull that is not refused leaves every member with some thickness.
pub proof fn a_pull_never_flattens(
    brushes: Seq<Brush>,
    ids: Seq<u32>,
    axis: Axis,
    side: Side,
    step: int,
    k: int,
)
    requires
        members_fit(brushes, ids, axis, side, -step),
        !some_thin_member(brushes, ids, axis, step),
        0 <= k < brushes.len(),
        ids.contains(brushes[k].id),
    ensures
        members_moved(brushes, ids, axis, side, -step)[k].size(axis) > 0,
{
}

// ---- Texture schemes ----

/// The boxes of the room around `start` with another scheme.
pub open spec fn room_schemed(brushes: Seq<Brush>, start: Brush, scheme: usize) -> Seq<Brush> {
    brushes.map_values(
        |b: Brush|
            if in_room(start, brushes, b.id) {
                Brush { scheme, ..b }
            } else {
                b
            },
    )
}

/// The stairs carved in the room around `start` with another scheme.
pub open spec fn stairs_schemed(
    stairs: Seq<StairView>,
    brushes: Seq<Brush>,
    start: Brush,
    scheme: usize,
) -> Seq<StairView> {
    stairs.map_values(
        |s: StairView|
            if exists|k: int|
                0 <= k < s.void_ids.len() && in_room(start, brushes, #[trigger] s.void_ids[k]) {
                StairView { scheme, ..s }
            } else {
                s
            },
    )
}

/// Whether `b` is the box with that id.
pub open spec fn is_brush(brushes: Seq<Brush>, id: u32, b: Brush) -> bool {
    brushes.contains(b) && b.id == id
}

fn find_brush(brushes: &Vec<Brush>, id: u32) -> (b: Option<Brush>)
    ensures
        match b {
            Some(b) => is_brush(brushes@, id, b),
            None => forall|b: Brush| !is_brush(brushes@, id, b),
        },
{
    let mut k: usize = 0;
    while k < brushes.len()
        invariant
            k <= brushes@.len(),
            forall|j: int| 0 <= j < k ==> (#[trigger] brushes@[j]).id != id,
        decreases brushes@.len() - k,
    {
        if brushes[k].id == id {
            assert(brushes@[k as int].id == id);
            return Some(brushes[k]);
        }
        k = k + 1;
    }
    None
}

impl World {
    /// Retextures the room that the picked box is part of, and the stairs carved in it. A
    /// frame is not a room. The result is the picked box when something was retextured.
    pub fn set_scheme_along(&mut self, pick: Option<u32>, scheme: usize) -> (done: Option<u32>)
        requires
            old(self).level@.wf(),
        ensures
            match done {
                Some(id) => {
                    &&& old(self).mode == Mode::Build
                    &&& pick == Some(id)
                    &&& exists|start: Brush|
                        #[trigger] is_brush(old(self).level@.brushes, id, start) && !start.frame
                            && final(self).level@ == (LevelView {
                            brushes: room_schemed(old(self).level@.brushes, start, scheme),
                            stairs: stairs_schemed(
                                old(self).level@.stairs,
                                old(self).level@.brushes,
                                start,
                                scheme,
                            ),
                            ..old(self).level@
                        })
                    &&& *final(self) == (World { level: final(self).level, ..*old(self) })
                },
                None => {
                    &&& *final(self) == *old(self)
                    &&& old(self).mode != Mode::Build || pick is None || forall|b: Brush|
                        #[trigger] is_brush(old(self).level@.brushes, pick->0, b) ==> b.frame
                },
            },
            final(self).level@.wf(),
    {
        if self.mode != Mode::Build {
            return None;
        }
        let id: u32 = match pick {
            Some(id) => id,
            None => return None,
        };
        let start: Brush = match find_brush(&self.level.brushes, id) {
            Some(b) => b,
            None => return None,
        };
        if start.frame {
            assert forall|b: Brush| #[trigger] is_brush(self.level@.brushes, id, b) implies b.frame by {
                let i = choose|i: int| 0 <= i < self.level@.brushes.len() && self.level@.brushes[i] == b;
                let j = choose|j: int| 0 <= j < self.level@.brushes.len() && self.level@.brushes[j] == start;
                assert(self.level@.brushes[i].id == self.level@.brushes[j].id);
            }
            return None;
        }
        let ghost all = self.level@.brushes;
        let room: Vec<u32> = find_room_brushes(&start, &self.level.brushes);
        proof {
            let s = choose|s: int| 0 <= s < all.len() && all[s] == start;
            assert forall|i: int| 0 <= i < all.len() && (#[trigger] all[i]).id == start.id implies all[i]
                == start by {
                assert(all[i].id == all[s].id);
            }
            assert(crate::brush::ids_are_distinct(start, all));
            assert forall|id: u32| room@.contains(id) == in_room(start, all, id) by {}
        }
        let mut k: usize = 0;
        while k < self.level.brushes.len()
            invariant
                k <= self.level.brushes@.len(),
                self.level.brushes@.len() == all.len(),
                all == old(self).level@.brushes,
                *self == (World { level: self.level, ..*old(self) }),
                self.level == (Level { brushes: self.level.brushes, ..old(self).level }),
                forall|id: u32| room@.contains(id) == in_room(start, all, id),
                forall|j: int|
                    0 <= j < k ==> #[trigger] self.level.brushes@[j] == room_schemed(
                        all,
                        start,
                        scheme,
                    )[j],
                forall|j: int| k <= j < all.len() ==> #[trigger] self.level.brushes@[j] == all[j],
            decreases self.level.brushes@.len() - k,
        {
            let mut b: Brush = self.level.brushes[k];
            if holds(&room, b.id) {
                b.scheme = scheme;
                self.level.brushes.set(k, b);
            }
            k = k + 1;
        }
        assert(self.level.brushes@ =~= room_schemed(all, start, scheme));
        let ghost old_stairs = self.level.stairs@;
        let mut s: usize = 0;
        while s < self.level.stairs.len()
            invariant
                s <= self.level.stairs@.len(),
                self.level.stairs@.len() == old_stairs.len(),
                old_stairs == old(self).level.stairs@,
                self.level.brushes@ == room_schemed(all, start, scheme),
                *self == (World { level: self.level, ..*old(self) }),
                self.level == (Level {
                    brushes: self.level.brushes,
                    stairs: self.level.stairs,
                    ..old(self).level
                }),
                forall|id: u32| room@.contains(id) == in_room(start, all, id),
                forall|j: int|
                    0 <= j < s ==> (#[trigger] self.level.stairs@[j])@ == stairs_schemed(
                        stairs_of(old_stairs),
                        all,
                        start,
                        scheme,
                    )[j],
                forall|j: int|
                    s <= j < old_stairs.len() ==> #[trigger] self.level.stairs@[j] == old_stairs[j],
            decreases self.level.stairs@.len() - s,
        {
            let st: &Stair = &self.level.stairs[s];
            let inside: bool = any_held(&room, &st.void_ids);
            proof {
                let v = stairs_of(old_stairs)[s as int];
                assert(v.void_ids == st.void_ids@);
                if inside {
                    let k = choose|k: int|
                        0 <= k < st.void_ids@.len() && room@.contains(#[trigger] st.void_ids@[k]);
                    assert(in_room(start, all, v.void_ids[k]));
                } else {
                    assert forall|k: int| 0 <= k < v.void_ids.len() implies !in_room(
                        start,
                        all,
                        #[trigger] v.void_ids[k],
                    ) by {
                        assert(!room@.contains(st.void_ids@[k]));
                    }
                }
            }
            if inside {
                self.level.stairs[s].scheme = scheme;
            }
            s = s + 1;
        }
        assert(stairs_of(self.level.stairs@) =~= stairs_schemed(
            stairs_of(old_stairs),
            all,
            start,
            scheme,
        ));
        assert(is_brush(all, id, start));
        Some(id)
    }
}

impl World {
    /// Retextures the room under the crosshair, which is on the picked box if on any.
    pub fn set_scheme_at_crosshair(&mut self, pick: Option<u32>, scheme: usize) -> (done: Option<
        u32,
    >)
        requires
            old(self).level@.wf(),
        ensures
            done is Some <==> old(self).mode == Mode::Build && (pick matches Some(id) && exists|
                b: Brush,
            | #[trigger] is_brush(old(self).level@.brushes, id, b) && !b.frame),
            done matches Some(id) ==> exists|start: Brush| #[trigger]
                is_brush(old(self).level@.brushes, id, start) && final(self).level@ == (LevelView {
                    brushes: room_schemed(old(self).level@.brushes, start, scheme),
                    stairs: stairs_schemed(
                        old(self).level@.stairs,
                        old(self).level@.brushes,
                        start,
                        scheme,
                    ),
                    ..old(self).level@
                }),
            done is None ==> *final(self) == *old(self),
            *final(self) == (World { level: final(self).level, ..*old(self) }),
            final(self).level@.wf(),
    {
        self.set_scheme_along(pick, scheme)
    }
}

fn any_held(room: &Vec<u32>, ids: &Vec<u32>) -> (b: bool)
    ensures
        b == exists|k: int| 0 <= k < ids@.len() && room@.contains(#[trigger] ids@[k]),
{
    let mut k: usize = 0;
    while k < ids.len()
        invariant
            k <= ids@.len(),
            forall|j: int| 0 <= j < k ==> !room@.contains(#[trigger] ids@[j]),
        decreases ids@.len() - k,
    {
        if holds(room, ids[k]) {
            assert(room@.contains(ids@[k as int]));
            return true;
        }
        k = k + 1;
    }
    false
}

// ---- Theme hotkeys ----

/// Whether a theme can be bound to a key: the digits from one to nine.
pub open spec fn is_theme_key(key: char) -> bool {
    '1' <= key <= '9'
}

/// The theme that a key is bound to, by name.
pub open spec fn bound_to(keys: Seq<(char, Seq<char>)>, key: char) -> Option<Seq<char>>
    decreases keys.len(),
{
    if keys.len() == 0 {
        None
    } else if keys.last().0 == key {
        Some(keys.last().1)
    } else {
        bound_to(keys.drop_last(), key)
    }
}

/// The bindings of the keys before `key`, or of those after it.
pub open spec fn keys_beside(keys: Seq<(char, Seq<char>)>, key: char, after: bool) -> Seq<
    (char, Seq<char>),
>
    decreases keys.len(),
{
    if keys.len() == 0 {
        keys
    } else {
        let rest = keys_beside(keys.drop_last(), key, after);
        let k = keys.last().0;
        if (after && k > key) || (!after && k < key) {
            rest.push(keys.last())
        } else {
            rest
        }
    }
}

/// The bindings after `key` is bound to `name`, or to nothing.
pub open spec fn rebound(
    keys: Seq<(char, Seq<char>)>,
    key: char,
    name: Option<Seq<char>>,
) -> Seq<(char, Seq<char>)> {
    keys_beside(keys, key, false) + (match name {
        Some(n) => seq![(key, n)],
        None => Seq::empty(),
    }) + keys_beside(keys, key, true)
}

/// A binding holds until it is changed, and changing one key leaves every other alone.
pub proof fn a_binding_is_the_last_one_made(
    keys: Seq<(char, Seq<char>)>,
    key: char,
    name: Option<Seq<char>>,
    other: char,
)
    ensures
        bound_to(rebound(keys, key, name), key) == name,
        other != key ==> bound_to(rebound(keys, key, name), other) == bound_to(keys, other),
{
    let low = keys_beside(keys, key, false);
    let high = keys_beside(keys, key, true);
    let mid = match name {
        Some(n) => seq![(key, n)],
        None => Seq::empty(),
    };
    lemma_bound_to_joined(low + mid, high, key);
    lemma_bound_to_joined(low, mid, key);
    lemma_bound_to_joined(low + mid, high, other);
    lemma_bound_to_joined(low, mid, other);
    lemma_keys_beside(keys, key, false, key);
    lemma_keys_beside(keys, key, true, key);
    lemma_keys_beside(keys, key, false, other);
    lemma_keys_beside(keys, key, true, other);
    if let Some(n) = name {
        assert(mid.drop_last() =~= Seq::empty());
        assert(bound_to(mid.drop_last(), other) is None);
        assert(other != key ==> bound_to(mid, other) is None);
    }
    assert(other != key ==> other < key || other > key);
}

/// Bindings in order stay in order.
pub proof fn bindings_stay_in_order(
    keys: Seq<(char, Seq<char>)>,
    key: char,
    name: Option<Seq<char>>,
)
    requires
        keys_in_order(keys),
    ensures
        keys_in_order(rebound(keys, key, name)),
{
    lemma_beside_in_order(keys, key, false);
    lemma_beside_in_order(keys, key, true);
}

proof fn lemma_bound_to_joined(a: Seq<(char, Seq<char>)>, b: Seq<(char, Seq<char>)>, key: char)
    ensures
        bound_to(a + b, key) == if bound_to(b, key) is Some {
            bound_to(b, key)
        } else {
            bound_to(a, key)
        },
    decreases b.len(),
{
    if b.len() == 0 {
        assert(a + b =~= a);
    } else {
        assert((a + b).drop_last() =~= a + b.drop_last());
        lemma_bound_to_joined(a, b.drop_last(), key);
    }
}

proof fn lemma_keys_beside(keys: Seq<(char, Seq<char>)>, key: char, after: bool, other: char)
    ensures
        bound_to(keys_beside(keys, key, after), other) == if (after && other > key) || (!after
            && other < key) {
            bound_to(keys, other)
        } else {
            None
        },
    decreases keys.len(),
{
    if keys.len() > 0 {
        let rest = keys_beside(keys.drop_last(), key, after);
        lemma_keys_beside(keys.drop_last(), key, after, other);
        assert(rest.push(keys.last()).drop_last() =~= rest);
    }
}

proof fn lemma_beside_in_order(keys: Seq<(char, Seq<char>)>, key: char, after: bool)
    requires
        keys_in_order(keys),
    ensures
        keys_in_order(keys_beside(keys, key, after)),
        forall|i: int|
            0 <= i < keys_beside(keys, key, after).len() ==> {
                let k = (#[trigger] keys_beside(keys, key, after)[i]).0;
                &&& after ==> k > key
                &&& !after ==> k < key
                &&& keys.len() > 0 ==> k <= keys.last().0
            },
    decreases keys.len(),
{
    if keys.len() > 0 {
        let shorter = keys.drop_last();
        lemma_beside_in_order(shorter, key, after);
        let rest = keys_beside(shorter, key, after);
        if shorter.len() > 0 {
            assert(shorter.last() == keys[keys.len() - 2]);
            assert(keys[keys.len() - 2].0 < keys[keys.len() - 1].0);
        }
    }
}

fn push_beside(from: &Vec<(char, String)>, key: char, after: bool, out: &mut Vec<(char, String)>)
    ensures
        hotkeys_of(final(out)@) == hotkeys_of(old(out)@) + keys_beside(
            hotkeys_of(from@),
            key,
            after,
        ),
{
    let ghost keys = hotkeys_of(from@);
    let ghost head = hotkeys_of(out@);
    let mut k: usize = 0;
    assert(keys.take(0) =~= Seq::empty());
    assert(hotkeys_of(out@) =~= head + keys_beside(keys.take(0), key, after));
    while k < from.len()
        invariant
            k <= from@.len(),
            keys == hotkeys_of(from@),
            hotkeys_of(out@) == head + keys_beside(keys.take(k as int), key, after),
        decreases from@.len() - k,
    {
        let ghost before = hotkeys_of(out@);
        let ghost rest = keys_beside(keys.take(k as int), key, after);
        assert(keys.take(k + 1).drop_last() =~= keys.take(k as int));
        assert(keys.take(k + 1).last() == keys[k as int]);
        let b: &(char, String) = &from[k];
        if (after && b.0 > key) || (!after && b.0 < key) {
            out.push((b.0, b.1.clone()));
            assert(hotkeys_of(out@) =~= before.push(keys[k as int]));
            assert(head + rest.push(keys[k as int]) =~= (head + rest).push(keys[k as int]));
        }
        k = k + 1;
    }
    assert(keys.take(k as int) =~= keys);
}

/// The name of a theme, if there is one.
pub open spec fn named_theme(theme: Option<String>) -> Option<Seq<char>> {
    match theme {
        Some(t) => Some(t@),
        None => None,
    }
}

/// The first theme of that name.
pub open spec fn is_theme_index(themes: Seq<String>, name: Seq<char>, i: int) -> bool {
    0 <= i < themes.len() && themes[i]@ == name && forall|j: int|
        0 <= j < i ==> (#[trigger] themes[j])@ != name
}

impl World {
    /// Binds a theme to a digit key, or unbinds it. Other keys are ignored.
    pub fn set_theme_hotkey(&mut self, key: char, theme: Option<String>)
        ensures
            !is_theme_key(key) ==> *final(self) == *old(self),
            is_theme_key(key) ==> {
                &&& final(self).level@ == (LevelView {
                    theme_hotkeys: rebound(
                        old(self).level@.theme_hotkeys,
                        key,
                        named_theme(theme),
                    ),
                    ..old(self).level@
                })
                &&& *final(self) == (World {
                    level: final(self).level,
                    revision: next_revision(old(self).revision),
                    ..*old(self)
                })
            },
            old(self).level@.wf() ==> final(self).level@.wf(),
    {
        if !(key >= '1' && key <= '9') {
            return ;
        }
        let ghost keys = hotkeys_of(self.level.theme_hotkeys@);
        let ghost name = named_theme(theme);
        let mut bound: Vec<(char, String)> = Vec::new();
        push_beside(&self.level.theme_hotkeys, key, false, &mut bound);
        assert(hotkeys_of(bound@) =~= keys_beside(keys, key, false));
        match theme {
            Some(t) => {
                let ghost before = hotkeys_of(bound@);
                let ghost n = t@;
                bound.push((key, t));
                assert(hotkeys_of(bound@) =~= before + seq![(key, n)]);
            },
            None => {
                assert(hotkeys_of(bound@) =~= hotkeys_of(bound@) + Seq::empty());
            },
        }
        push_beside(&self.level.theme_hotkeys, key, true, &mut bound);
        assert(hotkeys_of(bound@) == rebound(keys, key, name));
        proof {
            if keys_in_order(keys) {
                bindings_stay_in_order(keys, key, name);
            }
        }
        self.level.theme_hotkeys = bound;
        self.bump_revision();
    }

    /// The scheme that a key selects: the theme bound to it where there is one of that name
    /// among `themes`, the key's own scheme otherwise.
    pub fn scheme_for_key(&self, key: char, themes: &Vec<String>, own: Option<usize>) -> (scheme:
        Option<usize>)
        ensures
            match bound_to(self.level@.theme_hotkeys, key) {
                Some(name) => match scheme {
                    Some(i) => is_theme_index(themes@, name, i as int) || (scheme == own && forall|
                        j: int,
                    |
                        0 <= j < themes@.len() ==> (#[trigger] themes@[j])@ != name),
                    None => own is None && forall|j: int|
                        0 <= j < themes@.len() ==> (#[trigger] themes@[j])@ != name,
                },
                None => scheme == own,
            },
    {
        let ghost keys = self.level@.theme_hotkeys;
        let mut k: usize = self.level.theme_hotkeys.len();
        assert(keys.take(k as int) =~= keys);
        while k > 0
            invariant
                k <= self.level.theme_hotkeys@.len(),
                keys == hotkeys_of(self.level.theme_hotkeys@),
                bound_to(keys, key) == bound_to(keys.take(k as int), key),
            decreases k,
        {
            k = k - 1;
            assert(keys.take(k + 1).drop_last() =~= keys.take(k as int));
            let b: &(char, String) = &self.level.theme_hotkeys[k];
            assert(keys.take(k + 1).last() == (b.0, b.1@));
            if b.0 == key {
                let mut i: usize = 0;
                while i < themes.len()
                    invariant
                        i <= themes@.len(),
                        bound_to(keys, key) == Some(b.1@),
                        keys == self.level@.theme_hotkeys,
                        forall|j: int| 0 <= j < i ==> (#[trigger] themes@[j])@ != b.1@,
                    decreases themes@.len() - i,
                {
                    if themes[i] == b.1 {
                        return Some(i);
                    }
                    i = i + 1;
                }
                return own;
            }
        }
        own
    }
}

/// How far a part of a face reaches along one axis: the size that was asked for where the face
/// has room for it, and the whole face otherwise.
pub open spec fn part_size(size: i32, min: i32, max: i32) -> int {
    if 0 < size <= max - min {
        size as int
    } else {
        max - min
    }
}

/// A new carve is a hollow box with one face in the plane of the selected face, lying wholly
/// outside of it, as deep as the step; a new extension is a solid one lying wholly inside. Both
/// have the face's texture and cover the selection rectangle, and the face at the far end of what
/// was spawned is the one selected next.
pub proof fn a_carve_goes_out_and_an_extension_in(
    before: World,
    after: World,
    t: FaceTarget,
    op: SubOp,
    step: int,
    affected: Seq<u32>,
    info: FaceInfo,
)
    requires
        is_sub_face_step(before, after, t, op, step, affected),
        !(before.edit.active matches Some(a) && a.op == op),
        t.info == Some(info),
        info.wf(),
        0 < step <= i32::MAX,
        i32::MIN <= info.position - step,
        before.edit.wf(),
        t.sel.axis != info.u_axis,
        t.sel.axis != info.v_axis,
        info.u_axis != info.v_axis,
    ensures
        after.level@.brushes.len() == before.level@.brushes.len() + 1,
        after.level@.brushes.drop_last() == before.level@.brushes,
        ({
            let b = after.level@.brushes.last();
            let outward = op == SubOp::Push;
            let rect = carve_bounds(before.edit, info);
            &&& b.id == before.level@.next_brush_id && affected == seq![b.id]
            &&& after.level@.next_brush_id == b.id + 1
            &&& b.scheme == info.scheme && !b.frame
            &&& outward ==> b.op == Op::Subtract
            &&& !outward ==> b.op == Op::Add
            &&& (t.sel.side == Side::Max) == outward ==> edge(b, t.sel.axis, Side::Min)
                == info.position && edge(b, t.sel.axis, Side::Max) == info.position + step
            &&& (t.sel.side == Side::Max) != outward ==> edge(b, t.sel.axis, Side::Max)
                == info.position && edge(b, t.sel.axis, Side::Min) == info.position - step
            &&& edge(b, info.u_axis, Side::Min) == rect.u0 && edge(b, info.u_axis, Side::Max)
                == rect.u1
            &&& edge(b, info.v_axis, Side::Min) == rect.v0 && edge(b, info.v_axis, Side::Max)
                == rect.v1
            &&& after.edit.selected matches Some(s) && s.brush_id == b.id && s.axis == t.sel.axis
                && s.region_id == t.sel.region_id && (s.side == t.sel.side) == outward
            &&& after.edit.active matches Some(a) && a.brush_id == b.id && a.op == op && a.side
                == t.sel.side
            &&& after.edit.sel_bounds is None && after.edit.sel_size_u == 0
                && after.edit.sel_size_v == 0
        }),
{
    assert(after.level@.brushes.drop_last() =~= before.level@.brushes);
}

/// A rectangle that was not placed yet covers as much of the face as was asked for, in its
/// middle, to within one unit and never closer to the lower edge.
pub proof fn a_selection_starts_in_the_middle(e: Editor, info: FaceInfo)
    requires
        info.wf(),
    ensures
        e.sel_bounds matches Some(b) ==> carve_bounds(e, info) == b,
        e.sel_bounds is None ==> {
            let b = carve_bounds(e, info);
            &&& b.u1 - b.u0 == part_size(e.sel_size_u, info.u_min, info.u_max)
            &&& b.v1 - b.v0 == part_size(e.sel_size_v, info.v_min, info.v_max)
            &&& 0 <= (b.u0 - info.u_min) - (info.u_max - b.u1) <= 1
            &&& 0 <= (b.v0 - info.v_min) - (info.v_max - b.v1) <= 1
            &&& info.u_min <= b.u0 && b.u1 <= info.u_max
            &&& info.v_min <= b.v0 && b.v1 <= info.v_max
        },
{
}

/// A rectangle that follows the crosshair keeps its size, stays on the face, and has the
/// crosshair in its middle to within half a unit, or as close to it as the edge of the face
/// lets it come.
pub proof fn a_selection_follows_the_crosshair(e: Editor, info: FaceInfo, hit_u: int, hit_v: int)
    requires
        info.wf(),
    ensures
        ({
            let b = follow_bounds(e, info, hit_u, hit_v);
            &&& b.u1 - b.u0 == part_size(e.sel_size_u, info.u_min, info.u_max)
            &&& b.v1 - b.v0 == part_size(e.sel_size_v, info.v_min, info.v_max)
            &&& info.u_min <= b.u0 && b.u1 <= info.u_max
            &&& info.v_min <= b.v0 && b.v1 <= info.v_max
            &&& hit_u - 500 * (b.u0 + b.u1) > 500 ==> b.u1 == info.u_max
            &&& hit_u - 500 * (b.u0 + b.u1) < -500 ==> b.u0 == info.u_min
            &&& hit_v - 500 * (b.v0 + b.v1) > 500 ==> b.v1 == info.v_max
            &&& hit_v - 500 * (b.v0 + b.v1) < -500 ==> b.v0 == info.v_min
        }),
{
    lemma_follow(hit_u, part_size(e.sel_size_u, info.u_min, info.u_max), info.u_min as int, info.u_max as int);
    lemma_follow(hit_v, part_size(e.sel_size_v, info.v_min, info.v_max), info.v_min as int, info.v_max as int);
}

proof fn lemma_follow(hit: int, size: int, min: int, max: int)
    requires
        0 <= size <= max - min,
    ensures
        ({
            let s = follow_start(hit, size, min, max);
            &&& min <= s && s + size <= max
            &&& hit - 500 * (s + s + size) > 500 ==> s + size == max
            &&& hit - 500 * (s + s + size) < -500 ==> s == min
        }),
{
    let r = round_away(hit - 500 * size, 1000);
    assert(-500 <= 1000 * r - (hit - 500 * size) <= 500);
}

/// A selection that is resized keeps to between one unit and the whole face, starts from the
/// whole face where nothing was chosen, and otherwise changes by what was asked.
pub proof fn resizing_keeps_to_the_face(size: int, by: int, full: int)
    requires
        full >= 1,
    ensures
        by == 0 ==> nudged(size, by, full) == size,
        by != 0 ==> 1 <= nudged(size, by, full) <= full,
        by != 0 && size > 0 && 1 <= size + by <= full ==> nudged(size, by, full) == size + by,
        by != 0 && size <= 0 && 1 <= full + by <= full ==> nudged(size, by, full) == full + by,
        by != 0 && size > 0 && size + by > full ==> nudged(size, by, full) == full,
        by != 0 && size > 0 && size + by < 1 ==> nudged(size, by, full) == 1,
{
}

/// When a patch moves, the face of each of its boxes moves outward by the step, or inward by a
/// step back; their other faces, every other box, and the order of the boxes stay as they were.
pub proof fn a_patch_moves_its_own_faces(
    brushes: Seq<Brush>,
    ids: Seq<u32>,
    axis: Axis,
    side: Side,
    by: int,
    k: int,
    other: Axis,
    s: Side,
)
    requires
        members_fit(brushes, ids, axis, side, by),
        0 <= k < brushes.len(),
    ensures
        members_moved(brushes, ids, axis, side, by).len() == brushes.len(),
        ({
            let b = brushes[k];
            let a = members_moved(brushes, ids, axis, side, by)[k];
            &&& !ids.contains(b.id) ==> a == b
            &&& ids.contains(b.id) ==> {
                &&& a.id == b.id && a.op == b.op && a.scheme == b.scheme && a.frame == b.frame
                &&& side == Side::Max ==> edge(a, axis, side) == edge(b, axis, side) + by
                &&& side == Side::Min ==> edge(a, axis, side) == edge(b, axis, side) - by
                &&& other != axis || s != side ==> edge(a, other, s) == edge(b, other, s)
            }
        }),
{
}

/// A push or pull of a whole face moves the face of every box of its patch by the step, when the
/// patch has a box at all, and ends any carve in progress.
pub proof fn a_whole_face_moves_with_its_patch(
    before: World,
    after: World,
    t: FaceTarget,
    by: int,
    affected: Seq<u32>,
    k: int,
)
    requires
        is_patch_step(before, after, t, by, affected),
        members_fit(before.level@.brushes, t.members@, t.sel.axis, t.sel.side, by),
        0 <= k < before.level@.brushes.len(),
    ensures
        after.level@.brushes.len() == before.level@.brushes.len(),
        t.members@.contains(before.level@.brushes[k].id) ==> {
            let b = before.level@.brushes[k];
            let a = after.level@.brushes[k];
            &&& t.sel.side == Side::Max ==> edge(a, t.sel.axis, Side::Max) == edge(
                b,
                t.sel.axis,
                Side::Max,
            ) + by
            &&& t.sel.side == Side::Min ==> edge(a, t.sel.axis, Side::Min) == edge(
                b,
                t.sel.axis,
                Side::Min,
            ) - by
            &&& affected == t.members@
            &&& after.edit.active is None
        },
        !t.members@.contains(before.level@.brushes[k].id) ==> after.level@.brushes[k]
            == before.level@.brushes[k],
        after.level@.next_brush_id == before.level@.next_brush_id,
        after.edit.selected == before.edit.selected,
{
}

/// A carve or extension in progress is deepened by the step: the box that was spawned grows on
/// the side away from the face it started from, and nothing is spawned.
pub proof fn a_carve_in_progress_deepens(
    before: World,
    after: World,
    t: FaceTarget,
    op: SubOp,
    step: int,
    affected: Seq<u32>,
    active: ActiveOp,
    k: int,
)
    requires
        is_sub_face_step(before, after, t, op, step, affected),
        before.edit.active == Some(active),
        active.op == op,
        0 <= k < before.level@.brushes.len(),
        before.level@.brushes[k].id == active.brush_id,
        i32::MIN <= before.level@.brushes[k].size(t.sel.axis) + step <= i32::MAX,
        i32::MIN <= before.level@.brushes[k].lo(t.sel.axis) - step <= i32::MAX,
    ensures
        after.level@.brushes.len() == before.level@.brushes.len(),
        ({
            let b = before.level@.brushes[k];
            let a = after.level@.brushes[k];
            let up = (active.side == Side::Max) == (op == SubOp::Push);
            &&& affected == seq![active.brush_id]
            &&& up ==> edge(a, t.sel.axis, Side::Max) == edge(b, t.sel.axis, Side::Max) + step
                && edge(a, t.sel.axis, Side::Min) == edge(b, t.sel.axis, Side::Min)
            &&& !up ==> edge(a, t.sel.axis, Side::Min) == edge(b, t.sel.axis, Side::Min) - step
                && edge(a, t.sel.axis, Side::Max) == edge(b, t.sel.axis, Side::Max)
        }),
        forall|j: int|
            0 <= j < before.level@.brushes.len() && (#[trigger] before.level@.brushes[j]).id
                != active.brush_id ==> after.level@.brushes[j] == before.level@.brushes[j],
{
    assert(seq![active.brush_id][0] == active.brush_id);
    assert(seq![active.brush_id].contains(active.brush_id));
}

/// A box is too thin for a pull when the pull is no less than what it measures.
pub proof fn thin_boxes_stop_a_pull(brushes: Seq<Brush>, ids: Seq<u32>, axis: Axis, step: int, k: int)
    requires
        0 <= k < brushes.len(),
        ids.contains(brushes[k].id),
        edge(brushes[k], axis, Side::Max) - edge(brushes[k], axis, Side::Min) <= step,
    ensures
        some_thin_member(brushes, ids, axis, step),
        some_member(brushes, ids),
{
}

/// A pull that no box of the patch is too thin for is not stopped.
pub proof fn thick_boxes_do_not_stop_a_pull(
    brushes: Seq<Brush>,
    ids: Seq<u32>,
    axis: Axis,
    step: int,
)
    requires
        forall|k: int|
            0 <= k < brushes.len() && ids.contains((#[trigger] brushes[k]).id) ==> edge(
                brushes[k],
                axis,
                Side::Max,
            ) - edge(brushes[k], axis, Side::Min) > step,
    ensures
        !some_thin_member(brushes, ids, axis, step),
{
}

/// A binding stands in the list exactly when it is the new one, or an old one of another key.
pub proof fn a_new_binding_replaces_the_old_one(
    keys: Seq<(char, Seq<char>)>,
    key: char,
    name: Option<Seq<char>>,
    k: char,
    theme: Seq<char>,
)
    ensures
        rebound(keys, key, name).contains((k, theme)) <==> (k == key && name == Some(theme)) || (k
            != key && keys.contains((k, theme))),
{
    let e = (k, theme);
    let low = keys_beside(keys, key, false);
    let high = keys_beside(keys, key, true);
    let mid = match name {
        Some(n) => seq![(key, n)],
        None => Seq::empty(),
    };
    let all = rebound(keys, key, name);
    lemma_beside_holds(keys, key, false, e);
    lemma_beside_holds(keys, key, true, e);
    if low.contains(e) {
        let i = choose|i: int| 0 <= i < low.len() && low[i] == e;
        assert(all[i] == e);
    }
    if high.contains(e) {
        let i = choose|i: int| 0 <= i < high.len() && high[i] == e;
        assert(all[low.len() + mid.len() + i] == e);
    }
    if k == key && name == Some(theme) {
        assert(all[low.len() as int] == e);
    }
    if all.contains(e) {
        let i = choose|i: int| 0 <= i < all.len() && all[i] == e;
        if i < low.len() {
            assert(low[i] == e);
        } else if i < low.len() + mid.len() {
            assert(mid[i - low.len()] == e);
        } else {
            assert(high[i - low.len() - mid.len()] == e);
        }
    }
    if k != key {
        assert(k < key || k > key);
    }
}

proof fn lemma_beside_holds(
    keys: Seq<(char, Seq<char>)>,
    key: char,
    after: bool,
    e: (char, Seq<char>),
)
    ensures
        keys_beside(keys, key, after).contains(e) <==> keys.contains(e) && ((after && e.0 > key)
            || (!after && e.0 < key)),
    decreases keys.len(),
{
    if keys.len() > 0 {
        let front = keys.drop_last();
        lemma_beside_holds(front, key, after, e);
        let rest = keys_beside(front, key, after);
        let all = keys_beside(keys, key, after);
        if rest.contains(e) {
            let i = choose|i: int| 0 <= i < rest.len() && rest[i] == e;
            assert(all[i] == e);
        }
        if front.contains(e) {
            let i = choose|i: int| 0 <= i < front.len() && front[i] == e;
            assert(keys[i] == e);
        }
        if keys.last() == e {
            assert(keys[keys.len() - 1] == e);
            if (after && e.0 > key) || (!after && e.0 < key) {
                assert(all[rest.len() as int] == e);
            }
        }
        if all.contains(e) {
            let i = choose|i: int| 0 <= i < all.len() && all[i] == e;
            if i < rest.len() {
                assert(rest[i] == e);
            }
        }
        if keys.contains(e) {
            let i = choose|i: int| 0 <= i < keys.len() && keys[i] == e;
            if i < front.len() {
                assert(front[i] == e);
            }
        }
    }
}

/// A key is bound to the theme that the list has for it, and to none where it has none.
pub proof fn a_key_is_bound_as_listed(
    keys: Seq<(char, Seq<char>)>,
    key: char,
    i: int,
)
    requires
        keys_in_order(keys),
    ensures
        0 <= i < keys.len() && keys[i].0 == key ==> bound_to(keys, key) == Some(keys[i].1),
        (forall|j: int| 0 <= j < keys.len() ==> (#[trigger] keys[j]).0 != key) ==> bound_to(
            keys,
            key,
        ) is None,
    decreases keys.len(),
{
    if keys.len() > 0 {
        let front = keys.drop_last();
        assert(keys_in_order(front)) by {
            assert forall|a: int, b: int| 0 <= a < b < front.len() implies (#[trigger] front[a]).0 < (
            #[trigger] front[b]).0 by {
                assert(keys[a].0 < keys[b].0);
            }
        }
        a_key_is_bound_as_listed(front, key, i);
        if 0 <= i < front.len() && keys[i].0 == key {
            assert(keys[i].0 < keys[keys.len() - 1].0);
            assert(front[i] == keys[i]);
        }
        if forall|j: int| 0 <= j < keys.len() ==> (#[trigger] keys[j]).0 != key {
            assert forall|j: int| 0 <= j < front.len() implies (#[trigger] front[j]).0 != key by {
                assert(keys[j].0 != key);
            }
            assert(keys[keys.len() - 1].0 != key);
        }
    }
}

/// Retexturing gives the texture to the boxes of the room and no others, and changes nothing else
/// about them.
pub proof fn retexturing_stays_in_the_room(
    brushes: Seq<Brush>,
    start: Brush,
    scheme: usize,
    k: int,
)
    requires
        0 <= k < brushes.len(),
    ensures
        room_schemed(brushes, start, scheme).len() == brushes.len(),
        in_room(start, brushes, brushes[k].id) ==> room_schemed(
            brushes,
            start,
            scheme,
        )[k] == (Brush { scheme, ..brushes[k] }),
        !in_room(start, brushes, brushes[k].id) ==> room_schemed(
            brushes,
            start,
            scheme,
        )[k] == brushes[k],
{
}

/// A flight of stairs takes the room's texture exactly when one of its boxes is in the room, and
/// keeps its boxes.
pub proof fn stairs_go_with_the_room(
    stairs: Seq<StairView>,
    brushes: Seq<Brush>,
    start: Brush,
    scheme: usize,
    k: int,
    i: int,
)
    requires
        0 <= k < stairs.len(),
        0 <= i < stairs[k].void_ids.len(),
    ensures
        stairs_schemed(stairs, brushes, start, scheme).len() == stairs.len(),
        stairs_schemed(stairs, brushes, start, scheme)[k].void_ids == stairs[k].void_ids,
        in_room(start, brushes, stairs[k].void_ids[i]) ==> stairs_schemed(
            stairs,
            brushes,
            start,
            scheme,
        )[k].scheme == scheme,
        (forall|j: int|
            0 <= j < stairs[k].void_ids.len() ==> !in_room(
                start,
                brushes,
                #[trigger] stairs[k].void_ids[j],
            )) ==> stairs_schemed(stairs, brushes, start, scheme)[k] == stairs[k],
{
}

/// Clearing the editor drops the selection, the tool, and everything about a part of a face, and
/// keeps whether patches move as one.
pub proof fn clearing_drops_what_is_in_hand(e: Editor)
    ensures
        e.cleared().selected is None && !e.cleared().tool_armed && e.cleared().active is None
            && e.cleared().pending_stair is None && e.cleared().sel_bounds is None,
        e.cleared().sel_size_u == 0 && e.cleared().sel_size_v == 0,
        e.cleared().patch_scope == e.patch_scope,
        e.without_subface().selected == e.selected && e.without_subface().tool_armed
            == e.tool_armed,
        e.without_subface().active is None && e.without_subface().sel_bounds is None
            && e.without_subface().pending_stair is None,
{
}

/// A theme is found under its own name and at its first place in the list, and it is found
/// wherever the list has it.
pub proof fn themes_are_found_by_name(themes: Seq<String>, name: Seq<char>, i: int, j: int)
    requires
        0 <= j < themes.len(),
        themes[j]@ == name,
    ensures
        is_theme_index(themes, name, i) ==> 0 <= i <= j && themes[i]@ == name,
        exists|k: int| #[trigger] is_theme_index(themes, name, k),
    decreases j,
{
    if exists|k: int| 0 <= k < j && (#[trigger] themes[k])@ == name {
        let k = choose|k: int| 0 <= k < j && (#[trigger] themes[k])@ == name;
        themes_are_found_by_name(themes, name, i, k);
    } else {
        assert(is_theme_index(themes, name, j));
    }
}

/// A part of a face that is being pushed grows on its own side, and one that is being pulled on
/// the other.
pub proof fn a_push_grows_outward_and_a_pull_inward(a: ActiveOp)
    ensures
        a.op is Push ==> grow_side(a) == a.side,
        a.op is Pull && a.side == Side::Min ==> grow_side(a) == Side::Max,
        a.op is Pull && a.side == Side::Max ==> grow_side(a) == Side::Min,
{
}

} // verus!
