//! Axis-aligned boxes on the editor's grid: the solids and hollows a level is carved from.
use vstd::prelude::*;

verus! {

#[derive(Clone, Copy, PartialEq, Eq, Debug, Structural)]
pub enum Axis {
    X,
    Y,
    Z,
}

/// Which of a box's two faces across an axis.
#[derive(Clone, Copy, PartialEq, Eq, Debug, Structural)]
pub enum Side {
    Min,
    Max,
}

impl Side {
    pub open spec fn other(self) -> Side {
        match self {
            Side::Min => Side::Max,
            Side::Max => Side::Min,
        }
    }

    /// The opposite face.
    pub fn flip(self) -> (s: Side)
        ensures
            s == self.other(),
    {
        match self {
            Side::Min => Side::Max,
            Side::Max => Side::Min,
        }
    }
}

/// Whether a box is hollowed out of the level or filled in.
#[derive(Clone, Copy, PartialEq, Eq, Debug, Structural)]
pub enum Op {
    Subtract,
    Add,
}

/// One box: its corner, its extent, its texture scheme, and whether it frames an opening.
#[derive(Clone, Copy, PartialEq, Eq, Debug, Structural)]
pub struct Brush {
    pub id: u32,
    pub op: Op,
    pub x: i32,
    pub y: i32,
    pub z: i32,
    pub w: i32,
    pub h: i32,
    pub d: i32,
    pub scheme: usize,
    pub frame: bool,
}

impl Brush {
    /// The coordinate of the lower face across `axis`.
    pub open spec fn lo(self, axis: Axis) -> int {
        match axis {
            Axis::X => self.x as int,
            Axis::Y => self.y as int,
            Axis::Z => self.z as int,
        }
    }

    /// The extent along `axis`.
    pub open spec fn size(self, axis: Axis) -> int {
        match axis {
            Axis::X => self.w as int,
            Axis::Y => self.h as int,
            Axis::Z => self.d as int,
        }
    }

    /// The coordinate of the upper face across `axis`.
    pub open spec fn hi(self, axis: Axis) -> int {
        self.lo(axis) + self.size(axis)
    }

    /// The coordinate of one face.
    pub open spec fn face(self, axis: Axis, side: Side) -> int {
        match side {
            Side::Min => self.lo(axis),
            Side::Max => self.hi(axis),
        }
    }

    /// This box with another span along one axis.
    pub open spec fn with_span(self, axis: Axis, lo: int, size: int) -> Brush {
        match axis {
            Axis::X => Brush { x: lo as i32, w: size as i32, ..self },
            Axis::Y => Brush { y: lo as i32, h: size as i32, ..self },
            Axis::Z => Brush { z: lo as i32, d: size as i32, ..self },
        }
    }

    /// This box with one face moved `by` outward.
    pub open spec fn pushed(self, axis: Axis, side: Side, by: int) -> Brush {
        match side {
            Side::Max => self.with_span(axis, self.lo(axis), self.size(axis) + by),
            Side::Min => self.with_span(axis, self.lo(axis) - by, self.size(axis) + by),
        }
    }

    /// Whether moving that face outward leaves the box on the grid.
    pub open spec fn can_push(self, axis: Axis, side: Side, by: int) -> bool {
        &&& i32::MIN <= self.size(axis) + by <= i32::MAX
        &&& side == Side::Min ==> i32::MIN <= self.lo(axis) - by <= i32::MAX
    }

    pub fn new(id: u32, op: Op, x: i32, y: i32, z: i32, w: i32, h: i32, d: i32) -> (b: Brush)
        ensures
            b == (Brush { id, op, x, y, z, w, h, d, scheme: 0, frame: false }),
    {
        Brush { id, op, x, y, z, w, h, d, scheme: 0, frame: false }
    }

    fn lo_of(&self, axis: Axis) -> (c: i64)
        ensures
            c == self.lo(axis),
    {
        match axis {
            Axis::X => self.x as i64,
            Axis::Y => self.y as i64,
            Axis::Z => self.z as i64,
        }
    }

    /// The extent along `axis`.
    pub fn dim(&self, axis: Axis) -> (c: i32)
        ensures
            c == self.size(axis),
    {
        match axis {
            Axis::X => self.w,
            Axis::Y => self.h,
            Axis::Z => self.d,
        }
    }

    fn hi_of(&self, axis: Axis) -> (c: i64)
        ensures
            c == self.hi(axis),
    {
        self.lo_of(axis) + self.dim(axis) as i64
    }

    fn set_span(&mut self, axis: Axis, lo: i32, size: i32)
        ensures
            *final(self) == old(self).with_span(axis, lo as int, size as int),
    {
        match axis {
            Axis::X => {
                self.x = lo;
                self.w = size;
            },
            Axis::Y => {
                self.y = lo;
                self.h = size;
            },
            Axis::Z => {
                self.z = lo;
                self.d = size;
            },
        }
    }

    /// Moves one face outward.
    pub fn push_face(&mut self, axis: Axis, side: Side, by: i32)
        requires
            old(self).can_push(axis, side, by as int),
        ensures
            *final(self) == old(self).pushed(axis, side, by as int),
    {
        let lo: i64 = self.lo_of(axis);
        let size: i64 = self.dim(axis) as i64 + by as i64;
        match side {
            Side::Max => {
                self.set_span(axis, lo as i32, size as i32);
            },
            Side::Min => {
                self.set_span(axis, (lo - by as i64) as i32, size as i32);
            },
        }
    }

    /// Moves one face inward.
    pub fn pull_face(&mut self, axis: Axis, side: Side, by: i32)
        requires
            old(self).can_push(axis, side, -by),
        ensures
            *final(self) == old(self).pushed(axis, side, -by),
    {
        let lo: i64 = self.lo_of(axis);
        let size: i64 = self.dim(axis) as i64 - by as i64;
        match side {
            Side::Max => {
                self.set_span(axis, lo as i32, size as i32);
            },
            Side::Min => {
                self.set_span(axis, (lo + by as i64) as i32, size as i32);
            },
        }
    }
}

/// Moving a face out and back in again gives the box back.
pub proof fn pull_undoes_push(b: Brush, axis: Axis, side: Side, by: int)
    requires
        b.can_push(axis, side, by),
    ensures
        b.pushed(axis, side, by).can_push(axis, side, -by),
        b.pushed(axis, side, by).pushed(axis, side, -by) == b,
{
}

/// Pushing moves the chosen face by exactly the step and no other face at all.
pub proof fn push_moves_one_face(b: Brush, axis: Axis, side: Side, by: int, other: Axis)
    requires
        b.can_push(axis, side, by),
    ensures
        b.pushed(axis, side, by).face(axis, side) == b.face(axis, side) + (if side == Side::Max {
            by
        } else {
            -by
        }),
        b.pushed(axis, side, by).face(axis, side.other()) == b.face(axis, side.other()),
        other != axis ==> b.pushed(axis, side, by).lo(other) == b.lo(other) && b.pushed(
            axis,
            side,
            by,
        ).hi(other) == b.hi(other),
{
}

// ---- Building boxes ----

/// The coordinate that `make_wall_brush` gives one axis: the last of the three assignments
/// to it, zero without one.
pub open spec fn assigned(
    on: Axis,
    axis: Axis,
    a: i32,
    u_axis: Axis,
    u: i32,
    v_axis: Axis,
    v: i32,
) -> i32 {
    if v_axis == on {
        v
    } else if u_axis == on {
        u
    } else if axis == on {
        a
    } else {
        0
    }
}

/// The hollow box that spans `a..a+da` across a wall and the rectangle `u`, `v` on it.
pub open spec fn wall_brush(
    id: u32,
    axis: Axis,
    a: i32,
    da: i32,
    u_axis: Axis,
    u0: i32,
    du: i32,
    v_axis: Axis,
    v0: i32,
    dv: i32,
) -> Brush {
    Brush {
        id,
        op: Op::Subtract,
        x: assigned(Axis::X, axis, a, u_axis, u0, v_axis, v0),
        y: assigned(Axis::Y, axis, a, u_axis, u0, v_axis, v0),
        z: assigned(Axis::Z, axis, a, u_axis, u0, v_axis, v0),
        w: assigned(Axis::X, axis, da, u_axis, du, v_axis, dv),
        h: assigned(Axis::Y, axis, da, u_axis, du, v_axis, dv),
        d: assigned(Axis::Z, axis, da, u_axis, du, v_axis, dv),
        scheme: 0,
        frame: false,
    }
}

/// Builds the box from its span along three axes given by name.
pub fn make_wall_brush(
    id: u32,
    axis: Axis,
    a: i32,
    da: i32,
    u_axis: Axis,
    u0: i32,
    du: i32,
    v_axis: Axis,
    v0: i32,
    dv: i32,
) -> (b: Brush)
    ensures
        b == wall_brush(id, axis, a, da, u_axis, u0, du, v_axis, v0, dv),
{
    let mut b: Brush = Brush::new(id, Op::Subtract, 0, 0, 0, 0, 0, 0);
    b.set_span(axis, a, da);
    b.set_span(u_axis, u0, du);
    b.set_span(v_axis, v0, dv);
    b
}

/// Builds the hollow of a stairwell: `lo..hi` along the flight, `u0..u1` across it.
pub fn make_stair_void(
    id: u32,
    axis: Axis,
    lo: i32,
    hi: i32,
    y_min: i32,
    y_max: i32,
    u_axis: Axis,
    u0: i32,
    u1: i32,
) -> (b: Brush)
    requires
        i32::MIN <= hi - lo <= i32::MAX,
        i32::MIN <= y_max - y_min <= i32::MAX,
        i32::MIN <= u1 - u0 <= i32::MAX,
    ensures
        b == wall_brush(
            id,
            axis,
            lo,
            (hi - lo) as i32,
            u_axis,
            u0,
            (u1 - u0) as i32,
            Axis::Y,
            y_min,
            (y_max - y_min) as i32,
        ),
{
    make_wall_brush(id, axis, lo, hi - lo, u_axis, u0, u1 - u0, Axis::Y, y_min, y_max - y_min)
}

/// A rectangle of grid cells, upper bounds excluded.
#[derive(Clone, Copy, PartialEq, Eq, Debug, Structural)]
pub struct CellRect {
    pub u0: i32,
    pub u1: i32,
    pub v0: i32,
    pub v1: i32,
}

impl CellRect {
    pub open spec fn covers(self, u: i32, v: i32) -> bool {
        self.u0 <= u < self.u1 && self.v0 <= v < self.v1
    }
}

/// A drawing surface: the rectangles of the coplanar faces that make it up.
pub struct DrawFace {
    pub rects: Vec<CellRect>,
}

impl DrawFace {
    /// Whether the unit cell at `(u, v)` lies on the surface itself, not merely inside the
    /// box around it.
    pub fn covers_cell(&self, u: i32, v: i32) -> (b: bool)
        ensures
            b == exists|k: int| 0 <= k < self.rects@.len() && (#[trigger] self.rects@[k]).covers(u, v),
    {
        let mut k: usize = 0;
        while k < self.rects.len()
            invariant
                k <= self.rects@.len(),
                forall|j: int| 0 <= j < k ==> !(#[trigger] self.rects@[j]).covers(u, v),
            decreases self.rects@.len() - k,
        {
            let r: CellRect = self.rects[k];
            if u >= r.u0 && u < r.u1 && v >= r.v0 && v < r.v1 {
                assert(self.rects@[k as int].covers(u, v));
                return true;
            }
            k = k + 1;
        }
        false
    }
}

// ---- Adjacency ----

/// Whether a face of one box lies in the plane of the facing face of the other.
pub open spec fn faces_meet(a: Brush, b: Brush, axis: Axis) -> bool {
    a.hi(axis) == b.lo(axis) || b.hi(axis) == a.lo(axis)
}

/// Whether the two spans share more than a boundary.
pub open spec fn spans_overlap(a: Brush, b: Brush, axis: Axis) -> bool {
    a.hi(axis) > b.lo(axis) && b.hi(axis) > a.lo(axis)
}

/// Whether two boxes share a piece of a face.
pub open spec fn touching(a: Brush, b: Brush) -> bool {
    ||| faces_meet(a, b, Axis::X) && spans_overlap(a, b, Axis::Y) && spans_overlap(a, b, Axis::Z)
    ||| faces_meet(a, b, Axis::Y) && spans_overlap(a, b, Axis::X) && spans_overlap(a, b, Axis::Z)
    ||| faces_meet(a, b, Axis::Z) && spans_overlap(a, b, Axis::X) && spans_overlap(a, b, Axis::Y)
}

fn meet(a: &Brush, b: &Brush, axis: Axis) -> (m: bool)
    ensures
        m == faces_meet(*a, *b, axis),
{
    a.hi_of(axis) == b.lo_of(axis) || b.hi_of(axis) == a.lo_of(axis)
}

fn overlap(a: &Brush, b: &Brush, axis: Axis) -> (o: bool)
    ensures
        o == spans_overlap(*a, *b, axis),
{
    a.hi_of(axis) > b.lo_of(axis) && b.hi_of(axis) > a.lo_of(axis)
}

/// Whether two boxes share a piece of a face: opposite faces in one plane, and overlap with
/// area on the other two axes. An edge or a corner in common is not enough.
pub fn brushes_touching(a: &Brush, b: &Brush) -> (t: bool)
    ensures
        t == touching(*a, *b),
{
    (meet(a, b, Axis::X) && overlap(a, b, Axis::Y) && overlap(a, b, Axis::Z)) || (meet(
        a,
        b,
        Axis::Y,
    ) && overlap(a, b, Axis::X) && overlap(a, b, Axis::Z)) || (meet(a, b, Axis::Z) && overlap(
        a,
        b,
        Axis::X,
    ) && overlap(a, b, Axis::Y))
}

/// Touching works both ways.
pub proof fn touching_is_mutual(a: Brush, b: Brush)
    ensures
        touching(a, b) == touching(b, a),
{
}

// ---- Rooms ----

/// Whether `b` is a hollow of the level that a room may grow into. Frames bound a room.
pub open spec fn is_hollow(brushes: Seq<Brush>, b: Brush) -> bool {
    brushes.contains(b) && b.op == Op::Subtract && !b.frame
}

/// Whether `b` is `start` or is reached from it in at most `n` steps, each from a box to a
/// hollow that touches it.
pub open spec fn reaches(start: Brush, brushes: Seq<Brush>, b: Brush, n: nat) -> bool
    decreases n,
{
    b == start || (n > 0 && is_hollow(brushes, b) && exists|a: Brush|
        #[trigger] touching(a, b) && reaches(start, brushes, a, (n - 1) as nat))
}

/// Whether `id` names a box of the room around `start`.
pub open spec fn in_room(start: Brush, brushes: Seq<Brush>, id: u32) -> bool {
    exists|b: Brush, n: nat| #[trigger] reaches(start, brushes, b, n) && b.id == id
}

/// Whether an id names one box only.
pub open spec fn ids_are_distinct(start: Brush, brushes: Seq<Brush>) -> bool {
    &&& forall|i: int, j: int|
        0 <= i < brushes.len() && 0 <= j < brushes.len() && (#[trigger] brushes[i]).id == (
        #[trigger] brushes[j]).id ==> brushes[i] == brushes[j]
    &&& forall|i: int|
        0 <= i < brushes.len() && (#[trigger] brushes[i]).id == start.id ==> brushes[i] == start
}

/// How many of the first `n` boxes are not in `room`.
spec fn unseen(brushes: Seq<Brush>, room: Seq<u32>, n: nat) -> nat
    decreases n,
{
    if n == 0 {
        0
    } else {
        unseen(brushes, room, (n - 1) as nat) + if room.contains(brushes[n - 1].id) {
            0nat
        } else {
            1nat
        }
    }
}

proof fn lemma_unseen_shrinks(brushes: Seq<Brush>, room: Seq<u32>, id: u32, n: nat)
    requires
        n <= brushes.len(),
    ensures
        unseen(brushes, room.push(id), n) <= unseen(brushes, room, n),
        !room.contains(id) && (exists|k: int| 0 <= k < n && (#[trigger] brushes[k]).id == id)
            ==> unseen(brushes, room.push(id), n) < unseen(brushes, room, n),
    decreases n,
{
    if n > 0 {
        lemma_unseen_shrinks(brushes, room, id, (n - 1) as nat);
        let last = brushes[n - 1].id;
        assert(room.push(id).contains(last) <==> room.contains(last) || last == id) by {
            if room.contains(last) {
                let k = choose|k: int| 0 <= k < room.len() && room[k] == last;
                assert(room.push(id)[k] == last);
            }
            if last == id {
                assert(room.push(id)[room.len() as int] == id);
            }
        }
    }
}

fn holds(ids: &Vec<u32>, id: u32) -> (b: bool)
    ensures
        b == ids@.contains(id),
{
    let mut k: usize = 0;
    while k < ids.len()
        invariant
            k <= ids@.len(),
            forall|j: int| 0 <= j < k ==> ids@[j] != id,
        decreases ids@.len() - k,
    {
        if ids[k] == id {
            assert(ids@[k as int] == id);
            return true;
        }
        k = k + 1;
    }
    false
}

proof fn lemma_push_contains(s: Seq<u32>, x: u32)
    ensures
        forall|y: u32| #[trigger] s.push(x).contains(y) <==> s.contains(y) || y == x,
{
    assert forall|y: u32| #[trigger] s.push(x).contains(y) <==> s.contains(y) || y == x by {
        if s.contains(y) {
            let k = choose|k: int| 0 <= k < s.len() && s[k] == y;
            assert(s.push(x)[k] == y);
        }
        if y == x {
            assert(s.push(x)[s.len() as int] == x);
        }
    }
}

/// Whether the flood fill has come upon `b`.
spec fn known(open: Seq<Brush>, done: Seq<Brush>, b: Brush) -> bool {
    open.contains(b) || done.contains(b)
}

/// What holds between the steps of the flood fill: every box still to be looked at or done
/// is reached, every id of the room names one of them, and the neighbours of every box that
/// is done are in.
spec fn fill_holds(
    start: Brush,
    brushes: Seq<Brush>,
    room: Seq<u32>,
    open: Seq<Brush>,
    done: Seq<Brush>,
) -> bool {
    &&& room.contains(start.id)
    &&& known(open, done, start)
    &&& forall|b: Brush|
        #[trigger] known(open, done, b) ==> (b == start || is_hollow(brushes, b)) && room.contains(
            b.id,
        ) && exists|n: nat| reaches(start, brushes, b, n)
    &&& forall|id: u32|
        #[trigger] room.contains(id) ==> exists|b: Brush| b.id == id && #[trigger] known(open, done, b)
    &&& forall|d: Brush, b: Brush|
        done.contains(d) && is_hollow(brushes, b) && #[trigger] touching(d, b) ==> room.contains(
            b.id,
        )
}

proof fn lemma_fill_is_complete(
    start: Brush,
    brushes: Seq<Brush>,
    room: Seq<u32>,
    done: Seq<Brush>,
    b: Brush,
    n: nat,
)
    requires
        fill_holds(start, brushes, room, Seq::empty(), done),
        ids_are_distinct(start, brushes),
        reaches(start, brushes, b, n),
    ensures
        done.contains(b),
    decreases n,
{
    if b != start {
        let a = choose|a: Brush|
            #[trigger] touching(a, b) && reaches(start, brushes, a, (n - 1) as nat);
        lemma_fill_is_complete(start, brushes, room, done, a, (n - 1) as nat);
        assert(room.contains(b.id));
        let c = choose|c: Brush| c.id == b.id && #[trigger] known(Seq::empty(), done, c);
        assert(done.contains(c));
        let j = choose|j: int| 0 <= j < brushes.len() && brushes[j] == b;
        if c != start {
            let i = choose|i: int| 0 <= i < brushes.len() && brushes[i] == c;
            assert(brushes[i] == brushes[j]);
        } else {
            assert(brushes[j] == start);
        }
    }
}

/// The ids of the boxes that make up the room around `start`: the hollows reached from it
/// through shared faces, and `start` itself.
pub fn find_room_brushes(start: &Brush, brushes: &Vec<Brush>) -> (room: Vec<u32>)
    ensures
        forall|id: u32| #[trigger] room@.contains(id) ==> in_room(*start, brushes@, id),
        ids_are_distinct(*start, brushes@) ==> forall|id: u32|
            in_room(*start, brushes@, id) ==> #[trigger] room@.contains(id),
        room@.no_duplicates(),
{
    let mut room: Vec<u32> = Vec::new();
    room.push(start.id);
    let mut queue: Vec<Brush> = Vec::new();
    queue.push(*start);
    let ghost mut done: Seq<Brush> = Seq::empty();
    assert(room@[0] == start.id);
    assert(queue@[0] == *start);
    assert(reaches(*start, brushes@, *start, 0));
    proof {
        assert(known(queue@, done, *start));
        assert forall|b: Brush| #[trigger] known(queue@, done, b) implies b == *start by {
            assert(queue@.contains(b));
        }
        assert forall|id: u32| #[trigger] room@.contains(id) implies exists|b: Brush|
            b.id == id && #[trigger] known(queue@, done, b) by {
            assert(id == start.id);
            assert(known(queue@, done, *start));
        }
    }
    while queue.len() > 0
        invariant
            fill_holds(*start, brushes@, room@, queue@, done),
            room@.no_duplicates(),
        decreases unseen(brushes@, room@, brushes@.len()), queue@.len(),
    {
        let ghost waiting = queue@;
        let cur: Brush = queue.pop().unwrap();
        assert(waiting[waiting.len() - 1] == cur);
        assert(waiting.contains(cur));
        assert(known(waiting, done, cur));
        let ghost n = choose|n: nat| reaches(*start, brushes@, cur, n);
        let ghost rest = queue@;
        let ghost entered = room@;
        assert forall|b: Brush| waiting.contains(b) implies rest.contains(b) || b == cur by {
            let k = choose|k: int| 0 <= k < waiting.len() && waiting[k] == b;
            if k < rest.len() {
                assert(rest[k] == b);
            }
        }
        assert forall|b: Brush| rest.contains(b) implies waiting.contains(b) by {
            let k = choose|k: int| 0 <= k < rest.len() && rest[k] == b;
            assert(waiting[k] == b);
        }
        assert(rest.push(cur) =~= waiting);
        let mut k: usize = 0;
        while k < brushes.len()
            invariant
                k <= brushes@.len(),
                reaches(*start, brushes@, cur, n),
                cur == *start || is_hollow(brushes@, cur),
                fill_holds(*start, brushes@, room@, queue@.push(cur), done),
                room@.no_duplicates(),
                forall|j: int|
                    0 <= j < k && (#[trigger] brushes@[j]).op == Op::Subtract && !brushes@[j].frame
                        && touching(cur, brushes@[j]) ==> room@.contains(brushes@[j].id),
                unseen(brushes@, room@, brushes@.len()) < unseen(brushes@, entered, brushes@.len())
                    || (room@ == entered && queue@ == rest),
            decreases brushes@.len() - k,
        {
            let other: Brush = brushes[k];
            assert(brushes@[k as int] == other);
            if !holds(&room, other.id) && other.op == Op::Subtract && !other.frame
                && brushes_touching(&cur, &other) {
                let ghost r0 = room@;
                let ghost q0 = queue@;
                proof {
                    lemma_unseen_shrinks(brushes@, r0, other.id, brushes@.len());
                    lemma_push_contains(r0, other.id);
                    assert(is_hollow(brushes@, other));
                    assert(touching(cur, other));
                    assert(reaches(*start, brushes@, other, (n + 1) as nat));
                }
                room.push(other.id);
                queue.push(other);
                proof {
                    let o0 = q0.push(cur);
                    let o1 = queue@.push(cur);
                    assert forall|b: Brush| o1.contains(b) <==> o0.contains(b) || b == other by {
                        if o1.contains(b) {
                            let i = choose|i: int| 0 <= i < o1.len() && o1[i] == b;
                            if i < q0.len() {
                                assert(o0[i] == b);
                            } else if i == q0.len() {
                                assert(b == other);
                            } else {
                                assert(o0[q0.len() as int] == b);
                            }
                        }
                        if o0.contains(b) {
                            let i = choose|i: int| 0 <= i < o0.len() && o0[i] == b;
                            if i < q0.len() {
                                assert(o1[i] == b);
                            } else {
                                assert(o1[(q0.len() + 1) as int] == b);
                            }
                        }
                        if b == other {
                            assert(o1[q0.len() as int] == b);
                        }
                    }
                    assert forall|id: u32| #[trigger] room@.contains(id) implies exists|b: Brush|
                        b.id == id && #[trigger] known(o1, done, b) by {
                        if id == other.id {
                            assert(known(o1, done, other));
                        } else {
                            let b = choose|b: Brush| b.id == id && #[trigger] known(o0, done, b);
                            assert(known(o1, done, b));
                        }
                    }
                    assert forall|b: Brush| #[trigger] known(o1, done, b) implies known(o0, done, b)
                        || b == other by {}
                    assert(known(o0, done, *start));
                    assert(known(o1, done, *start));
                    assert(fill_holds(*start, brushes@, room@, o1, done));
                }
            }
            k = k + 1;
        }
        proof {
            let before = done;
            let open = queue@.push(cur);
            done = before.push(cur);
            assert forall|b: Brush| #[trigger] done.contains(b) <==> before.contains(b) || b == cur by {
                if before.contains(b) {
                    let i = choose|i: int| 0 <= i < before.len() && before[i] == b;
                    assert(done[i] == b);
                }
                if b == cur {
                    assert(done[before.len() as int] == b);
                }
            }
            assert forall|b: Brush| open.contains(b) <==> queue@.contains(b) || b == cur by {
                if open.contains(b) {
                    let i = choose|i: int| 0 <= i < open.len() && open[i] == b;
                    if i < queue@.len() {
                        assert(queue@[i] == b);
                    }
                }
                if queue@.contains(b) {
                    let i = choose|i: int| 0 <= i < queue@.len() && queue@[i] == b;
                    assert(open[i] == b);
                }
                if b == cur {
                    assert(open[queue@.len() as int] == b);
                }
            }
            assert forall|id: u32| #[trigger] room@.contains(id) implies exists|b: Brush|
                b.id == id && #[trigger] known(queue@, done, b) by {
                let b = choose|b: Brush| b.id == id && #[trigger] known(open, before, b);
                assert(known(queue@, done, b));
            }
            assert forall|b: Brush| #[trigger] known(queue@, done, b) implies known(
                open,
                before,
                b,
            ) by {}
            assert(known(open, before, *start));
            assert(known(queue@, done, *start));
            assert forall|d: Brush, b: Brush|
                done.contains(d) && is_hollow(brushes@, b) && #[trigger] touching(d, b) implies room@.contains(
                b.id,
            ) by {
                if d == cur {
                    let j = choose|j: int| 0 <= j < brushes@.len() && brushes@[j] == b;
                    assert(room@.contains(brushes@[j].id));
                } else {
                    assert(before.contains(d));
                }
            }
            assert(fill_holds(*start, brushes@, room@, queue@, done));
        }
    }
    proof {
        assert(queue@ =~= Seq::empty());
        assert forall|id: u32| #[trigger] room@.contains(id) implies in_room(
            *start,
            brushes@,
            id,
        ) by {
            let b = choose|b: Brush| b.id == id && #[trigger] known(queue@, done, b);
            let n = choose|n: nat| reaches(*start, brushes@, b, n);
            assert(reaches(*start, brushes@, b, n) && b.id == id);
        }
        if ids_are_distinct(*start, brushes@) {
            assert forall|id: u32| in_room(*start, brushes@, id) implies #[trigger] room@.contains(
                id,
            ) by {
                let (b, n) = choose|b: Brush, n: nat|
                    #[trigger] reaches(*start, brushes@, b, n) && b.id == id;
                lemma_fill_is_complete(*start, brushes@, room@, done, b, n);
                assert(known(queue@, done, b));
            }
        }
    }
    room
}

proof fn lemma_reach_joins(a: Brush, brushes: Seq<Brush>, b: Brush, n: nat, c: Brush, m: nat)
    requires
        reaches(a, brushes, b, n),
        reaches(b, brushes, c, m),
    ensures
        reaches(a, brushes, c, n + m),
    decreases m,
{
    if c == b {
        lemma_reach_grows(a, brushes, b, n, n + m);
    } else {
        let p = choose|p: Brush| #[trigger] touching(p, c) && reaches(b, brushes, p, (m - 1) as nat);
        lemma_reach_joins(a, brushes, b, n, p, (m - 1) as nat);
        assert(((n + m) - 1) as nat == n + (m - 1) as nat);
        assert(touching(p, c) && reaches(a, brushes, p, ((n + m) - 1) as nat));
    }
}

proof fn lemma_reach_grows(a: Brush, brushes: Seq<Brush>, b: Brush, n: nat, m: nat)
    requires
        reaches(a, brushes, b, n),
        n <= m,
    ensures
        reaches(a, brushes, b, m),
    decreases n,
{
    if b != a {
        let p = choose|p: Brush| #[trigger] touching(p, b) && reaches(a, brushes, p, (n - 1) as nat);
        lemma_reach_grows(a, brushes, p, (n - 1) as nat, (m - 1) as nat);
    }
}

/// A room can be walked back: what `a` reaches also reaches `a`.
pub proof fn rooms_work_both_ways(a: Brush, brushes: Seq<Brush>, b: Brush, n: nat)
    requires
        is_hollow(brushes, a),
        reaches(a, brushes, b, n),
    ensures
        reaches(b, brushes, a, n),
    decreases n,
{
    if b != a {
        let p = choose|p: Brush| #[trigger] touching(p, b) && reaches(a, brushes, p, (n - 1) as nat);
        rooms_work_both_ways(a, brushes, p, (n - 1) as nat);
        touching_is_mutual(p, b);
        assert(is_hollow(brushes, p)) by {
            if p != a {
                assert(is_hollow(brushes, p));
            }
        }
        assert(touching(b, p) && reaches(b, brushes, b, 0));
        assert(reaches(b, brushes, p, 1));
        lemma_reach_joins(b, brushes, p, 1, a, (n - 1) as nat);
        assert(1 + (n - 1) as nat == n);
    }
}

/// Every hollow of a room names the same room.
pub proof fn a_room_is_the_same_from_every_part_of_it(
    a: Brush,
    b: Brush,
    brushes: Seq<Brush>,
    id: u32,
)
    requires
        is_hollow(brushes, a),
        exists|n: nat| reaches(a, brushes, b, n),
    ensures
        in_room(a, brushes, id) == in_room(b, brushes, id),
{
    let n = choose|n: nat| reaches(a, brushes, b, n);
    rooms_work_both_ways(a, brushes, b, n);
    if in_room(a, brushes, id) {
        let (c, m) = choose|c: Brush, m: nat| #[trigger] reaches(a, brushes, c, m) && c.id == id;
        lemma_reach_joins(b, brushes, a, n, c, m);
    }
    if in_room(b, brushes, id) {
        let (c, m) = choose|c: Brush, m: nat| #[trigger] reaches(b, brushes, c, m) && c.id == id;
        lemma_reach_joins(a, brushes, b, n, c, m);
    }
}

/// A room never spreads into a frame or a solid.
pub proof fn frames_bound_a_room(start: Brush, brushes: Seq<Brush>, b: Brush, n: nat)
    requires
        reaches(start, brushes, b, n),
    ensures
        b == start || (!b.frame && b.op == Op::Subtract),
{
}

/// Where a box begins and ends along an axis.
pub open spec fn edge(b: Brush, axis: Axis, side: Side) -> int {
    match (axis, side) {
        (Axis::X, Side::Min) => b.x as int,
        (Axis::X, Side::Max) => b.x + b.w,
        (Axis::Y, Side::Min) => b.y as int,
        (Axis::Y, Side::Max) => b.y + b.h,
        (Axis::Z, Side::Min) => b.z as int,
        (Axis::Z, Side::Max) => b.z + b.d,
    }
}

/// A push moves the one face that was taken, outward by the step, and a step back moves it
/// inward; every other face stays, and so does all that is not shape.
pub proof fn a_push_moves_the_face_outward(
    b: Brush,
    axis: Axis,
    side: Side,
    by: int,
    other: Axis,
    s: Side,
)
    requires
        b.can_push(axis, side, by),
    ensures
        edge(b.pushed(axis, Side::Max, by), axis, Side::Max) == edge(b, axis, Side::Max) + by
            || side != Side::Max,
        edge(b.pushed(axis, Side::Min, by), axis, Side::Min) == edge(b, axis, Side::Min) - by
            || side != Side::Min,
        other != axis || s != side ==> edge(b.pushed(axis, side, by), other, s) == edge(
            b,
            other,
            s,
        ),
        b.pushed(axis, side, by).id == b.id && b.pushed(axis, side, by).op == b.op && b.pushed(
            axis,
            side,
            by,
        ).scheme == b.scheme && b.pushed(axis, side, by).frame == b.frame,
{
}

/// The box of a wall patch spans what it was given along each of its three axes.
pub proof fn a_wall_box_spans_its_patch(
    id: u32,
    axis: Axis,
    a: i32,
    da: i32,
    u_axis: Axis,
    u0: i32,
    du: i32,
    v_axis: Axis,
    v0: i32,
    dv: i32,
)
    requires
        axis != u_axis,
        axis != v_axis,
        u_axis != v_axis,
    ensures
        ({
            let b = wall_brush(id, axis, a, da, u_axis, u0, du, v_axis, v0, dv);
            &&& b.id == id && b.op == Op::Subtract && !b.frame && b.scheme == 0
            &&& edge(b, axis, Side::Min) == a && edge(b, axis, Side::Max) == a + da
            &&& edge(b, u_axis, Side::Min) == u0 && edge(b, u_axis, Side::Max) == u0 + du
            &&& edge(b, v_axis, Side::Min) == v0 && edge(b, v_axis, Side::Max) == v0 + dv
        }),
{
}

/// Whether two boxes meet in a plane across `axis`.
pub open spec fn meet_across(a: Brush, b: Brush, axis: Axis) -> bool {
    edge(a, axis, Side::Max) == edge(b, axis, Side::Min) || edge(b, axis, Side::Max) == edge(
        a,
        axis,
        Side::Min,
    )
}

/// Whether two boxes share some of their extent along `axis`.
pub open spec fn share_along(a: Brush, b: Brush, axis: Axis) -> bool {
    edge(a, axis, Side::Max) > edge(b, axis, Side::Min) && edge(b, axis, Side::Max) > edge(
        a,
        axis,
        Side::Min,
    )
}

/// Boxes touch exactly when they meet in a plane and share some of it: a common edge or corner is
/// not enough, and neither is an overlap.
pub proof fn boxes_touch_through_a_face(a: Brush, b: Brush)
    ensures
        touching(a, b) <==> (meet_across(a, b, Axis::X) && share_along(a, b, Axis::Y)
            && share_along(a, b, Axis::Z)) || (meet_across(a, b, Axis::Y) && share_along(
            a,
            b,
            Axis::X,
        ) && share_along(a, b, Axis::Z)) || (meet_across(a, b, Axis::Z) && share_along(
            a,
            b,
            Axis::X,
        ) && share_along(a, b, Axis::Y)),
{
}

/// A room holds the box it is asked for, and every hollow box that is no frame and touches one
/// of its own.
pub proof fn a_room_is_closed(start: Brush, brushes: Seq<Brush>, a: Brush, b: Brush, n: nat)
    requires
        reaches(start, brushes, a, n),
        brushes.contains(b),
        b.op == Op::Subtract,
        !b.frame,
        touching(a, b),
    ensures
        in_room(start, brushes, start.id),
        in_room(start, brushes, b.id),
{
    assert(reaches(start, brushes, start, 0));
    assert(reaches(start, brushes, b, n + 1));
}

/// A room holds nothing else: whatever collection of boxes has the first one, and with each of
/// its boxes every hollow one that is no frame and touches it, has the whole room.
pub proof fn a_room_is_the_smallest_such(
    start: Brush,
    brushes: Seq<Brush>,
    all: Set<Brush>,
    b: Brush,
    n: nat,
)
    requires
        all.contains(start),
        forall|x: Brush, y: Brush|
            all.contains(x) && brushes.contains(y) && y.op == Op::Subtract && !y.frame
                && #[trigger] touching(x, y) ==> all.contains(y),
        reaches(start, brushes, b, n),
    ensures
        all.contains(b),
        b != start ==> brushes.contains(b) && b.op == Op::Subtract && !b.frame,
    decreases n,
{
    if b != start {
        let a = choose|a: Brush|
            #[trigger] touching(a, b) && reaches(start, brushes, a, (n - 1) as nat);
        a_room_is_the_smallest_such(start, brushes, all, a, (n - 1) as nat);
    }
}

/// A rectangle covers the cells from its lower edges up to, and not with, its upper ones.
pub proof fn rectangles_cover_their_cells(r: CellRect, u: i32, v: i32)
    ensures
        r.covers(u, v) <==> u >= r.u0 && u < r.u1 && v >= r.v0 && v < r.v1,
{
}

} // verus!
