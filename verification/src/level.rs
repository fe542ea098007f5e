//! The authored level: everything a save file holds, and nothing that is derived from it.
use vstd::prelude::*;

use crate::brush::Brush;
use crate::space::Point;

verus! {

/// A carved flight of stairs: the boxes that were hollowed out for it, and its texture.
pub struct Stair {
    pub void_ids: Vec<u32>,
    pub scheme: usize,
}

/// The contents of a [`Stair`].
pub struct StairView {
    pub void_ids: Seq<u32>,
    pub scheme: usize,
}

impl View for Stair {
    type V = StairView;

    open spec fn view(&self) -> StairView {
        StairView { void_ids: self.void_ids@, scheme: self.scheme }
    }
}

/// A free-standing slab.
#[derive(Clone, Copy, PartialEq, Eq, Debug, Structural)]
pub struct Platform {
    pub id: u32,
    pub x: i32,
    pub y: i32,
    pub z: i32,
    pub size_x: i32,
    pub size_z: i32,
    pub thickness: i32,
    pub grounded: bool,
    pub railings: bool,
}

/// The authored state of a level.
pub struct Level {
    pub brushes: Vec<Brush>,
    pub stairs: Vec<Stair>,
    pub platforms: Vec<Platform>,
    /// Stair runs, placed objects, ambient light and play settings, in their saved form.
    pub extras: Vec<u8>,
    pub spawn_point: Point,
    pub next_brush_id: u32,
    pub next_platform_id: u32,
    pub next_run_id: u32,
    pub level_name: String,
    /// The theme that each digit key is bound to, by name, in the order of the keys.
    pub theme_hotkeys: Vec<(char, String)>,
    pub platforms_are_floors: bool,
}

/// The contents of a [`Level`].
pub struct LevelView {
    pub brushes: Seq<Brush>,
    pub stairs: Seq<StairView>,
    pub platforms: Seq<Platform>,
    pub extras: Seq<u8>,
    pub spawn_point: Point,
    pub next_brush_id: u32,
    pub next_platform_id: u32,
    pub next_run_id: u32,
    pub level_name: Seq<char>,
    pub theme_hotkeys: Seq<(char, Seq<char>)>,
    pub platforms_are_floors: bool,
}

pub open spec fn stairs_of(s: Seq<Stair>) -> Seq<StairView> {
    s.map_values(|x: Stair| x@)
}

pub open spec fn hotkeys_of(s: Seq<(char, String)>) -> Seq<(char, Seq<char>)> {
    s.map_values(|x: (char, String)| (x.0, x.1@))
}

impl View for Level {
    type V = LevelView;

    open spec fn view(&self) -> LevelView {
        LevelView {
            brushes: self.brushes@,
            stairs: stairs_of(self.stairs@),
            platforms: self.platforms@,
            extras: self.extras@,
            spawn_point: self.spawn_point,
            next_brush_id: self.next_brush_id,
            next_platform_id: self.next_platform_id,
            next_run_id: self.next_run_id,
            level_name: self.level_name@,
            theme_hotkeys: hotkeys_of(self.theme_hotkeys@),
            platforms_are_floors: self.platforms_are_floors,
        }
    }
}

/// Whether the keys rise from one binding to the next, so that none is bound twice.
pub open spec fn keys_in_order(keys: Seq<(char, Seq<char>)>) -> bool {
    forall|i: int, j: int| 0 <= i < j < keys.len() ==> (#[trigger] keys[i]).0 < (#[trigger] keys[j]).0
}

impl LevelView {
    /// One hollow room, `24 × 16 × 24` grid units, and the marker that hunters spawn around.
    pub open spec fn fresh(spawn_point: Point) -> LevelView {
        LevelView {
            brushes: seq![
                Brush {
                    id: 1,
                    op: crate::brush::Op::Subtract,
                    x: 0,
                    y: 0,
                    z: 0,
                    w: 24,
                    h: 16,
                    d: 24,
                    scheme: 0,
                    frame: false,
                },
            ],
            stairs: Seq::empty(),
            platforms: Seq::empty(),
            extras: Seq::empty(),
            spawn_point,
            next_brush_id: 2,
            next_platform_id: 1,
            next_run_id: 1,
            level_name: Seq::empty(),
            theme_hotkeys: Seq::empty(),
            platforms_are_floors: false,
        }
    }

    /// Every box has an id of its own, and none has one that is still to be handed out. The
    /// bound keys come in order, each once.
    pub open spec fn wf(self) -> bool {
        &&& keys_in_order(self.theme_hotkeys)
        &&& forall|i: int, j: int|
            0 <= i < self.brushes.len() && 0 <= j < self.brushes.len() && (
            #[trigger] self.brushes[i]).id == (#[trigger] self.brushes[j]).id ==> i == j
        &&& forall|i: int|
            0 <= i < self.brushes.len() ==> (#[trigger] self.brushes[i]).id < self.next_brush_id
    }
}

pub(crate) fn copied<T: Copy>(v: &Vec<T>) -> (out: Vec<T>)
    ensures
        out@ == v@,
{
    let mut out: Vec<T> = Vec::new();
    let mut k: usize = 0;
    while k < v.len()
        invariant
            k <= v@.len(),
            out@ == v@.take(k as int),
        decreases v@.len() - k,
    {
        out.push(v[k]);
        k = k + 1;
        assert(out@ =~= v@.take(k as int));
    }
    assert(v@.take(k as int) =~= v@);
    out
}

fn copied_stairs(v: &Vec<Stair>) -> (out: Vec<Stair>)
    ensures
        stairs_of(out@) == stairs_of(v@),
{
    let mut out: Vec<Stair> = Vec::new();
    let mut k: usize = 0;
    while k < v.len()
        invariant
            k <= v@.len(),
            out@.len() == k,
            forall|j: int| 0 <= j < k ==> (#[trigger] out@[j])@ == v@[j]@,
        decreases v@.len() - k,
    {
        out.push(Stair { void_ids: copied(&v[k].void_ids), scheme: v[k].scheme });
        k = k + 1;
    }
    assert(stairs_of(out@) =~= stairs_of(v@));
    out
}

fn copied_hotkeys(v: &Vec<(char, String)>) -> (out: Vec<(char, String)>)
    ensures
        hotkeys_of(out@) == hotkeys_of(v@),
{
    let mut out: Vec<(char, String)> = Vec::new();
    let mut k: usize = 0;
    while k < v.len()
        invariant
            k <= v@.len(),
            out@.len() == k,
            forall|j: int| 0 <= j < k ==> (#[trigger] out@[j]).0 == v@[j].0 && out@[j].1@ == v@[j].1@,
        decreases v@.len() - k,
    {
        out.push((v[k].0, v[k].1.clone()));
        k = k + 1;
    }
    assert(hotkeys_of(out@) =~= hotkeys_of(v@));
    out
}

impl Level {
    /// A level with one hollow room, `24 × 16 × 24` grid units, and the marker that hunters
    /// spawn around.
    pub fn new(spawn_point: Point) -> (l: Level)
        ensures
            l@ == LevelView::fresh(spawn_point),
            l@.wf(),
    {
        let mut brushes: Vec<Brush> = Vec::new();
        brushes.push(Brush::new(1, crate::brush::Op::Subtract, 0, 0, 0, 24, 16, 24));
        let l = Level {
            brushes,
            stairs: Vec::new(),
            platforms: Vec::new(),
            extras: Vec::new(),
            spawn_point,
            next_brush_id: 2,
            next_platform_id: 1,
            next_run_id: 1,
            level_name: String::new(),
            theme_hotkeys: Vec::new(),
            platforms_are_floors: false,
        };
        assert(l@.brushes =~= seq![l@.brushes[0]]);
        assert(l@.stairs =~= Seq::empty());
        assert(l@.platforms =~= Seq::empty());
        assert(l@.extras =~= Seq::empty());
        assert(l@.theme_hotkeys =~= Seq::empty());
        l
    }

    /// A copy of the authored state.
    pub fn snapshot(&self) -> (l: Level)
        ensures
            l@ == self@,
    {
        Level {
            brushes: copied(&self.brushes),
            stairs: copied_stairs(&self.stairs),
            platforms: copied(&self.platforms),
            extras: copied(&self.extras),
            spawn_point: self.spawn_point,
            next_brush_id: self.next_brush_id,
            next_platform_id: self.next_platform_id,
            next_run_id: self.next_run_id,
            level_name: self.level_name.clone(),
            theme_hotkeys: copied_hotkeys(&self.theme_hotkeys),
            platforms_are_floors: self.platforms_are_floors,
        }
    }
}

} // verus!
