//! The pack as a whole: calling one another, spreading out over the level, keeping apart.
use vstd::prelude::*;

use crate::hunter::Hunter;
use crate::nav_survey::{is_pad_home, pad_comps, partition_pads, PadProbe};
use crate::space::{floor_div, Point};
use crate::world::World;

verus! {

/// How far a hunter in a fight is heard by its packmates.
pub const SQUAD_ALERT_RANGE: u32 = 12_000;

/// Hunters closer than this are pushed apart.
pub const ENEMY_SEPARATION_DIST: u32 = 700;

/// A search point closer than this is no way to go.
pub const SEARCH_MIN_DIST: u32 = 2000;

/// How many search points a hunt has.
pub const SEARCH_POINT_COUNT: usize = 12;

/// Where hunters come in when the level has no pads.
pub open spec fn marker_pos() -> Point {
    Point { x: 3000, y: 0, z: 3000 }
}

pub fn spawn_marker() -> (p: Point)
    ensures
        p == marker_pos(),
{
    Point { x: 3000, y: 0, z: 3000 }
}

/// A place where bodies enter the level, and which way they then face.
#[derive(Clone, Copy, PartialEq, Eq, Debug, Structural)]
pub struct SpawnPad {
    pub pos: Point,
    pub yaw: i32,
}

/// Where a hunt takes its places from.
pub struct SpawnPool {
    pub pads: Vec<SpawnPad>,
    pub point: Point,
    pub search_points: Vec<Point>,
}

// ---- Calls ----

/// Whether a hunter can tell its packmates where the player was.
pub open spec fn is_contact(h: Hunter) -> bool {
    !h.dead && h.engaged && h.last_known is Some
}

/// Whether a hunter is there to be told.
pub open spec fn listens(h: Hunter) -> bool {
    !h.dead && !h.engaged
}

/// The contact closest to `p` among the first `n` hunters, within earshot; the first if
/// several are.
pub open spec fn nearest_contact(hs: Seq<Hunter>, p: Point, n: nat) -> Option<int>
    decreases n,
{
    if n == 0 {
        None
    } else {
        let rest = nearest_contact(hs, p, (n - 1) as nat);
        let h = hs[n - 1];
        if is_contact(h) && h.pos.dist2_to(p) < SQUAD_ALERT_RANGE * SQUAD_ALERT_RANGE {
            match rest {
                Some(r) => if hs[r].pos.dist2_to(p) <= h.pos.dist2_to(p) {
                    rest
                } else {
                    Some(n - 1)
                },
                None => Some(n - 1),
            }
        } else {
            rest
        }
    }
}

/// Who among the first `n` hunters is called, and to where.
pub open spec fn calls(hs: Seq<Hunter>, n: nat) -> Seq<(usize, Point)>
    decreases n,
{
    if n == 0 {
        Seq::empty()
    } else {
        let rest = calls(hs, (n - 1) as nat);
        let c = nearest_contact(hs, hs[n - 1].pos, hs.len());
        if listens(hs[n - 1]) && c is Some {
            rest.push(((n - 1) as usize, hs[c->0].last_known->0))
        } else {
            rest
        }
    }
}

fn find_contact(hs: &Vec<Hunter>, p: Point) -> (c: Option<usize>)
    ensures
        match c {
            Some(c) => c < hs@.len() && nearest_contact(hs@, p, hs@.len()) == Some(c as int)
                && is_contact(hs@[c as int]),
            None => nearest_contact(hs@, p, hs@.len()) is None,
        },
{
    let mut best: Option<usize> = None;
    let mut k: usize = 0;
    while k < hs.len()
        invariant
            k <= hs@.len(),
            match best {
                Some(b) => b < k && nearest_contact(hs@, p, k as nat) == Some(b as int)
                    && is_contact(hs@[b as int]),
                None => nearest_contact(hs@, p, k as nat) is None,
            },
        decreases hs@.len() - k,
    {
        let h: Hunter = hs[k];
        let d: u128 = h.pos.dist2(&p);
        assert(SQUAD_ALERT_RANGE * SQUAD_ALERT_RANGE == 144_000_000) by (nonlinear_arith);
        if !h.dead && h.engaged && h.last_known.is_some() && d < 144_000_000 {
            let closer: bool = match best {
                Some(b) => d < hs[b].pos.dist2(&p),
                None => true,
            };
            if closer {
                best = Some(k);
            }
        }
        k = k + 1;
    }
    best
}

/// Who is called by a packmate in a fight, and to where: the place where the closest one within
/// earshot last knew the player to be, not where the player is.
pub fn squad_alert(hs: &Vec<Hunter>) -> (out: Vec<(usize, Point)>)
    ensures
        out@ == calls(hs@, hs@.len()),
{
    let mut out: Vec<(usize, Point)> = Vec::new();
    let mut k: usize = 0;
    while k < hs.len()
        invariant
            k <= hs@.len(),
            out@ == calls(hs@, k as nat),
        decreases hs@.len() - k,
    {
        let h: Hunter = hs[k];
        if !h.dead && !h.engaged {
            match find_contact(hs, h.pos) {
                Some(c) => {
                    out.push((k, hs[c].last_known.unwrap()));
                },
                None => {},
            }
        }
        k = k + 1;
    }
    out
}

proof fn lemma_contact_in_range(hs: Seq<Hunter>, p: Point, n: nat)
    requires
        n <= hs.len(),
    ensures
        nearest_contact(hs, p, n) matches Some(c) ==> 0 <= c < n && is_contact(hs[c])
            && hs[c].pos.dist2_to(p) < SQUAD_ALERT_RANGE * SQUAD_ALERT_RANGE && forall|j: int|
            0 <= j < n && is_contact(#[trigger] hs[j]) && hs[j].pos.dist2_to(p) < SQUAD_ALERT_RANGE
                * SQUAD_ALERT_RANGE ==> hs[c].pos.dist2_to(p) <= hs[j].pos.dist2_to(p),
        nearest_contact(hs, p, n) is None ==> forall|j: int|
            0 <= j < n && is_contact(#[trigger] hs[j]) ==> hs[j].pos.dist2_to(p)
                >= SQUAD_ALERT_RANGE * SQUAD_ALERT_RANGE,
    decreases n,
{
    if n > 0 {
        lemma_contact_in_range(hs, p, (n - 1) as nat);
    }
}

/// A call comes from a packmate in a fight within earshot, the closest one there is.
pub proof fn calls_come_from_the_closest_fight(hs: Seq<Hunter>, i: int)
    requires
        0 <= i < hs.len(),
    ensures
        nearest_contact(hs, hs[i].pos, hs.len()) matches Some(c) ==> 0 <= c < hs.len()
            && is_contact(hs[c]) && hs[c].pos.dist2_to(hs[i].pos) < SQUAD_ALERT_RANGE
            * SQUAD_ALERT_RANGE && forall|j: int|
            0 <= j < hs.len() && is_contact(#[trigger] hs[j]) && hs[j].pos.dist2_to(hs[i].pos)
                < SQUAD_ALERT_RANGE * SQUAD_ALERT_RANGE ==> hs[c].pos.dist2_to(hs[i].pos)
                <= hs[j].pos.dist2_to(hs[i].pos),
        nearest_contact(hs, hs[i].pos, hs.len()) is None ==> forall|j: int|
            0 <= j < hs.len() && is_contact(#[trigger] hs[j]) ==> hs[j].pos.dist2_to(hs[i].pos)
                >= SQUAD_ALERT_RANGE * SQUAD_ALERT_RANGE,
{
    lemma_contact_in_range(hs, hs[i].pos, hs.len());
}

// ---- Keeping apart ----

/// Whether two living hunters stand too close.
pub open spec fn too_close(a: Hunter, b: Hunter) -> bool {
    !a.dead && !b.dead && b.pos.flat2_to(a.pos) < ENEMY_SEPARATION_DIST * ENEMY_SEPARATION_DIST
}

/// The hunters after `i`, among the first `n`, that stand too close to it.
pub open spec fn pairs_of(hs: Seq<Hunter>, i: int, n: nat) -> Seq<(usize, usize)>
    decreases n,
{
    if n == 0 || n <= i + 1 {
        Seq::empty()
    } else {
        let rest = pairs_of(hs, i, (n - 1) as nat);
        if too_close(hs[i], hs[n - 1]) {
            rest.push((i as usize, (n - 1) as usize))
        } else {
            rest
        }
    }
}

/// The pairs that stand too close, by their first for the first `n`.
pub open spec fn close_pairs(hs: Seq<Hunter>, n: nat) -> Seq<(usize, usize)>
    decreases n,
{
    if n == 0 {
        Seq::empty()
    } else {
        close_pairs(hs, (n - 1) as nat) + pairs_of(hs, n - 1, hs.len())
    }
}

/// The pairs of hunters that have to be pushed apart.
pub fn separate_enemies(hs: &Vec<Hunter>) -> (out: Vec<(usize, usize)>)
    ensures
        out@ == close_pairs(hs@, hs@.len()),
{
    let mut out: Vec<(usize, usize)> = Vec::new();
    let mut i: usize = 0;
    while i < hs.len()
        invariant
            i <= hs@.len(),
            out@ == close_pairs(hs@, i as nat),
        decreases hs@.len() - i,
    {
        let a: Hunter = hs[i];
        let ghost head = out@;
        let mut j: usize = i + 1;
        assert(out@ =~= head + pairs_of(hs@, i as int, j as nat));
        while j < hs.len()
            invariant
                i < j <= hs@.len(),
                a == hs@[i as int],
                out@ == head + pairs_of(hs@, i as int, j as nat),
            decreases hs@.len() - j,
        {
            let b: Hunter = hs[j];
            assert(ENEMY_SEPARATION_DIST * ENEMY_SEPARATION_DIST == 490_000) by (nonlinear_arith);
            if !a.dead && !b.dead && b.pos.flat2(&a.pos) < 490_000 {
                out.push((i, j));
            }
            j = j + 1;
            assert(out@ =~= head + pairs_of(hs@, i as int, j as nat));
        }
        i = i + 1;
    }
    out
}

// ---- Where to look ----

/// Where a hunter is going: where it was sent, or where it is.
pub open spec fn headed(h: Hunter) -> Point {
    match h.search_target {
        Some(p) => p,
        None => h.pos,
    }
}

/// How far `p` is from where the closest of the first `n` hunters other than `me` is going,
/// squared; farther than any distance when there is no other.
pub open spec fn unclaimed(hs: Seq<Hunter>, me: int, p: Point, n: nat) -> int
    decreases n,
{
    if n == 0 {
        u128::MAX as int
    } else {
        let rest = unclaimed(hs, me, p, (n - 1) as nat);
        let d = headed(hs[n - 1]).dist2_to(p);
        if n - 1 != me && d < rest {
            d
        } else {
            rest
        }
    }
}

/// Whether a search point is far enough from a hunter at `from` to be worth the way.
pub open spec fn worth_going(p: Point, from: Point) -> bool {
    p.dist2_to(from) >= SEARCH_MIN_DIST * SEARCH_MIN_DIST
}

fn claim_distance(hs: &Vec<Hunter>, me: usize, p: Point) -> (d: u128)
    ensures
        d == unclaimed(hs@, me as int, p, hs@.len()),
{
    let mut best: u128 = u128::MAX;
    let mut k: usize = 0;
    while k < hs.len()
        invariant
            k <= hs@.len(),
            best == unclaimed(hs@, me as int, p, k as nat),
        decreases hs@.len() - k,
    {
        let h: Hunter = hs[k];
        let to: Point = match h.search_target {
            Some(q) => q,
            None => h.pos,
        };
        let d: u128 = to.dist2(&p);
        if k != me && d < best {
            best = d;
        }
        k = k + 1;
    }
    best
}

/// What a search goes by: the points to look at, the player, and where hunters come in.
pub struct SearchMap {
    pub points: Seq<Point>,
    pub player: Option<Point>,
    pub home: Point,
}

impl SearchMap {
    /// Where the search of hunter `me` starts from.
    pub open spec fn start(self, hs: Seq<Hunter>, me: int) -> Point {
        if 0 <= me < hs.len() {
            hs[me].pos
        } else {
            self.home
        }
    }

    /// Whether search point `i` is the one for hunter `me`: of those worth the way the one
    /// farthest from where any packmate is going, the first if several are.
    pub open spec fn is_choice(self, hs: Seq<Hunter>, me: int, i: int) -> bool {
        &&& 0 <= i < self.points.len()
        &&& worth_going(self.points[i], self.start(hs, me))
        &&& forall|j: int|
            0 <= j < self.points.len() && worth_going(#[trigger] self.points[j], self.start(hs, me))
                ==> unclaimed(hs, me, self.points[j], hs.len()) <= unclaimed(
                hs,
                me,
                self.points[i],
                hs.len(),
            ) && (j < i ==> unclaimed(hs, me, self.points[j], hs.len()) < unclaimed(
                hs,
                me,
                self.points[i],
                hs.len(),
            ))
    }

    /// Whether hunter `me` is to look at `p`: the search point chosen for it; the first one when
    /// none is worth the way; without any, the player, or where hunters come in.
    pub open spec fn is_pick(self, hs: Seq<Hunter>, me: int, p: Point) -> bool {
        if self.points.len() == 0 {
            p == match self.player {
                Some(q) => q,
                None => self.home,
            }
        } else if forall|j: int|
            0 <= j < self.points.len() ==> !worth_going(
                #[trigger] self.points[j],
                self.start(hs, me),
            ) {
            p == self.points[0]
        } else {
            exists|i: int| #[trigger] self.is_choice(hs, me, i) && p == self.points[i]
        }
    }

    /// Where hunter `me` is to look.
    pub open spec fn pick(self, hs: Seq<Hunter>, me: int) -> Point {
        choose|p: Point| self.is_pick(hs, me, p)
    }

    /// The hunters once the first `n` of `who` have been sent out, one after the other: each
    /// keeps away from where those before it are going.
    pub open spec fn sent_out(self, hs: Seq<Hunter>, who: Seq<usize>, n: nat) -> Seq<Hunter>
        decreases n,
    {
        if n == 0 {
            hs
        } else {
            let before = self.sent_out(hs, who, (n - 1) as nat);
            let i = who[n - 1] as int;
            before.update(
                i,
                Hunter { search_target: Some(self.pick(before, i)), ..before[i] },
            )
        }
    }
}

impl World {
    /// What the search of the hunters goes by.
    pub open spec fn search_map(self) -> SearchMap {
        SearchMap {
            points: self.spawn.search_points@,
            player: self.player.pos,
            home: self.spawn.point,
        }
    }

    /// Sends hunter `me` to look somewhere: away from where the others are going. Without
    /// search points it is sent to the player, or to where hunters come in.
    pub fn pick_search_point(&self, me: usize) -> (p: Point)
        ensures
            self.search_map().is_pick(self.hunters@, me as int, p),
            p == self.search_map().pick(self.hunters@, me as int),
    {
        let ghost map = self.search_map();
        if self.spawn.search_points.len() == 0 {
            let p: Point = match self.player.pos {
                Some(q) => q,
                None => self.spawn.point,
            };
            proof {
                lemma_pick(map, self.hunters@, me as int, p);
            }
            return p;
        }
        let from: Point = if me < self.hunters.len() {
            self.hunters[me].pos
        } else {
            self.spawn.point
        };
        let ghost pts = self.spawn.search_points@;
        let ghost n = self.hunters@.len();
        let mut best: Option<usize> = None;
        let mut score: u128 = 0;
        let mut k: usize = 0;
        while k < self.spawn.search_points.len()
            invariant
                k <= pts.len(),
                pts == self.spawn.search_points@,
                n == self.hunters@.len(),
                map == self.search_map(),
                from == map.start(self.hunters@, me as int),
                match best {
                    Some(b) => {
                        &&& b < k
                        &&& worth_going(pts[b as int], from)
                        &&& score == unclaimed(self.hunters@, me as int, pts[b as int], n)
                        &&& forall|j: int|
                            0 <= j < k && worth_going(#[trigger] pts[j], from) ==> unclaimed(
                                self.hunters@,
                                me as int,
                                pts[j],
                                n,
                            ) <= score && (j < b ==> unclaimed(
                                self.hunters@,
                                me as int,
                                pts[j],
                                n,
                            ) < score)
                    },
                    None => forall|j: int| 0 <= j < k ==> !worth_going(#[trigger] pts[j], from),
                },
            decreases pts.len() - k,
        {
            let p: Point = self.spawn.search_points[k];
            assert(SEARCH_MIN_DIST * SEARCH_MIN_DIST == 4_000_000) by (nonlinear_arith);
            if p.dist2(&from) >= 4_000_000 {
                let d: u128 = claim_distance(&self.hunters, me, p);
                if best.is_none() || d > score {
                    best = Some(k);
                    score = d;
                }
            }
            k = k + 1;
        }
        match best {
            Some(b) => {
                proof {
                    assert(map.is_choice(self.hunters@, me as int, b as int));
                    assert(worth_going(map.points[b as int], from));
                    lemma_pick(map, self.hunters@, me as int, pts[b as int]);
                }
                self.spawn.search_points[b]
            },
            None => {
                proof {
                    lemma_pick(map, self.hunters@, me as int, pts[0]);
                }
                self.spawn.search_points[0]
            },
        }
    }
}

/// There is never a choice between two places to look at.
pub proof fn a_search_choice_is_unique(map: SearchMap, hs: Seq<Hunter>, me: int, p: Point, q: Point)
    requires
        map.is_pick(hs, me, p),
        map.is_pick(hs, me, q),
    ensures
        p == q,
{
    if map.points.len() > 0 && exists|j: int|
        0 <= j < map.points.len() && worth_going(#[trigger] map.points[j], map.start(hs, me)) {
        let i = choose|i: int| #[trigger] map.is_choice(hs, me, i) && p == map.points[i];
        let j = choose|j: int| #[trigger] map.is_choice(hs, me, j) && q == map.points[j];
        assert(worth_going(map.points[i], map.start(hs, me)));
        assert(worth_going(map.points[j], map.start(hs, me)));
        assert(i == j);
    }
}

proof fn lemma_pick(map: SearchMap, hs: Seq<Hunter>, me: int, p: Point)
    requires
        map.is_pick(hs, me, p),
    ensures
        p == map.pick(hs, me),
{
    a_search_choice_is_unique(map, hs, me, p, map.pick(hs, me));
}

// ---- Spreading out ----

/// The square of the distance from `p` to the closest of the first `n` chosen points;
/// farther than any distance when there is none.
pub open spec fn clearance(chosen: Seq<Point>, p: Point, n: nat) -> int
    decreases n,
{
    if n == 0 {
        u128::MAX as int
    } else {
        let rest = clearance(chosen, p, (n - 1) as nat);
        let d = chosen[n - 1].dist2_to(p);
        if d < rest {
            d
        } else {
            rest
        }
    }
}

/// Whether cell `i` is the one farthest from the chosen points, the last if several are.
pub open spec fn is_farthest(cells: Seq<Point>, chosen: Seq<Point>, i: int) -> bool {
    &&& 0 <= i < cells.len()
    &&& forall|j: int|
        0 <= j < cells.len() ==> clearance(chosen, #[trigger] cells[j], chosen.len()) <= clearance(
            chosen,
            cells[i],
            chosen.len(),
        ) && (j > i ==> clearance(chosen, cells[j], chosen.len()) < clearance(
            chosen,
            cells[i],
            chosen.len(),
        ))
}

/// Whether `out` is a spread over the cells: the first point as far as possible from the
/// player, each later one as far as possible from those before it.
pub open spec fn is_spread(cells: Seq<Point>, player: Point, out: Seq<Point>) -> bool {
    &&& out.no_duplicates()
    &&& out.len() > 0 ==> exists|i: int| #[trigger]
        is_farthest(cells, seq![player], i) && out[0] == cells[i]
    &&& forall|k: int| 1 <= k < out.len() ==> #[trigger] is_spread_step(cells, out, k)
}

/// Whether point `k` is as far as possible from those before it.
pub open spec fn is_spread_step(cells: Seq<Point>, out: Seq<Point>, k: int) -> bool {
    exists|i: int| #[trigger] is_farthest(cells, out.take(k), i) && out[k] == cells[i]
}

proof fn lemma_spread_grows(cells: Seq<Point>, player: Point, out: Seq<Point>, i: int)
    requires
        out.len() > 0,
        is_spread(cells, player, out),
        is_farthest(cells, out, i),
        !out.contains(cells[i]),
    ensures
        is_spread(cells, player, out.push(cells[i])),
{
    let more = out.push(cells[i]);
    assert forall|k: int| 1 <= k < more.len() implies #[trigger] is_spread_step(cells, more, k) by {
        assert(more.take(k) =~= out.take(k));
        if k < out.len() {
            assert(is_spread_step(cells, out, k));
            let j = choose|j: int| #[trigger]
                is_farthest(cells, out.take(k), j) && out[k] == cells[j];
            assert(is_farthest(cells, more.take(k), j) && more[k] == cells[j]);
        } else {
            assert(out.take(k) =~= out);
            assert(is_farthest(cells, more.take(k), i) && more[k] == cells[i]);
        }
    }
    let j = choose|j: int| #[trigger] is_farthest(cells, seq![player], j) && out[0] == cells[j];
    assert(is_farthest(cells, seq![player], j) && more[0] == cells[j]);
}

fn clearance_of(chosen: &Vec<Point>, p: Point) -> (d: u128)
    ensures
        d == clearance(chosen@, p, chosen@.len()),
{
    let mut best: u128 = u128::MAX;
    let mut k: usize = 0;
    while k < chosen.len()
        invariant
            k <= chosen@.len(),
            best == clearance(chosen@, p, k as nat),
        decreases chosen@.len() - k,
    {
        let d: u128 = chosen[k].dist2(&p);
        if d < best {
            best = d;
        }
        k = k + 1;
    }
    best
}

fn farthest(cells: &Vec<Point>, chosen: &Vec<Point>) -> (i: usize)
    requires
        cells@.len() > 0,
    ensures
        is_farthest(cells@, chosen@, i as int),
{
    let mut best: usize = 0;
    let mut most: u128 = clearance_of(chosen, cells[0]);
    let mut k: usize = 1;
    while k < cells.len()
        invariant
            1 <= k <= cells@.len(),
            best < k,
            most == clearance(chosen@, cells@[best as int], chosen@.len()),
            forall|j: int|
                0 <= j < k ==> clearance(chosen@, #[trigger] cells@[j], chosen@.len()) <= most && (j
                    > best ==> clearance(chosen@, cells@[j], chosen@.len()) < most),
        decreases cells@.len() - k,
    {
        let d: u128 = clearance_of(chosen, cells[k]);
        if d >= most {
            best = k;
            most = d;
        }
        k = k + 1;
    }
    best
}

fn holds_point(chosen: &Vec<Point>, p: Point) -> (b: bool)
    ensures
        b == chosen@.contains(p),
{
    let mut k: usize = 0;
    while k < chosen.len()
        invariant
            k <= chosen@.len(),
            forall|j: int| 0 <= j < k ==> chosen@[j] != p,
        decreases chosen@.len() - k,
    {
        if chosen[k] == p {
            assert(chosen@[k as int] == p);
            return true;
        }
        k = k + 1;
    }
    false
}

/// The cells that a spread is taken from: those clear of the walls when there are enough of
/// them, all of them otherwise.
pub open spec fn spread_cells(all: Seq<Point>, interior: Seq<Point>, n: usize) -> Seq<Point> {
    if interior.len() >= n {
        interior
    } else {
        all
    }
}

/// Whether `out` is a spread of `n` cells as seen from `player`; it holds fewer only when it
/// holds every cell there is.
pub open spec fn is_spread_pick(
    all: Seq<Point>,
    interior: Seq<Point>,
    player: Point,
    n: usize,
    out: Seq<Point>,
) -> bool {
    &&& is_spread(spread_cells(all, interior, n), player, out)
    &&& out.len() <= n
    &&& out.len() < n ==> forall|j: int|
        0 <= j < spread_cells(all, interior, n).len() ==> out.contains(
            #[trigger] spread_cells(all, interior, n)[j],
        )
}

/// Chooses up to `n` cells far from the player and from one another. `interior` are the cells
/// clear of the walls. There are fewer when the cells run out.
pub fn pick_spread_spawns(all: &Vec<Point>, interior: &Vec<Point>, player: Point, n: usize) -> (out:
    Vec<Point>)
    ensures
        is_spread_pick(all@, interior@, player, n, out@),
{
    let cells: &Vec<Point> = if interior.len() >= n {
        interior
    } else {
        all
    };
    let mut out: Vec<Point> = Vec::new();
    if cells.len() == 0 || n == 0 {
        return out;
    }
    let mut start: Vec<Point> = Vec::new();
    start.push(player);
    assert(start@ =~= seq![player]);
    let seed: usize = farthest(cells, &start);
    out.push(cells[seed]);
    while out.len() < n
        invariant
            cells@ == spread_cells(all@, interior@, n),
            cells@.len() > 0,
            1 <= out@.len() <= n,
            is_spread(cells@, player, out@),
        decreases n - out@.len(),
    {
        let i: usize = farthest(cells, &out);
        let p: Point = cells[i];
        if holds_point(&out, p) {
            proof {
                lemma_chosen_has_no_clearance(out@, p);
                assert forall|j: int| 0 <= j < cells@.len() implies out@.contains(
                    #[trigger] cells@[j],
                ) by {
                    assert(clearance(out@, cells@[j], out@.len()) <= 0);
                    lemma_no_clearance_is_chosen(out@, cells@[j], out@.len());
                }
            }
            return out;
        }
        proof {
            lemma_spread_grows(cells@, player, out@, i as int);
        }
        out.push(p);
    }
    out
}

proof fn lemma_dist_zero(a: Point, b: Point)
    ensures
        a.dist2_to(b) >= 0,
        a.dist2_to(b) == 0 <==> a == b,
{
    assert((a.x - b.x) * (a.x - b.x) >= 0) by (nonlinear_arith);
    assert((a.y - b.y) * (a.y - b.y) >= 0) by (nonlinear_arith);
    assert((a.z - b.z) * (a.z - b.z) >= 0) by (nonlinear_arith);
    if a == b {
        assert((a.x - b.x) * (a.x - b.x) == 0) by (nonlinear_arith)
            requires
                a.x - b.x == 0,
        ;
        assert((a.y - b.y) * (a.y - b.y) == 0) by (nonlinear_arith)
            requires
                a.y - b.y == 0,
        ;
        assert((a.z - b.z) * (a.z - b.z) == 0) by (nonlinear_arith)
            requires
                a.z - b.z == 0,
        ;
    }
    if a.dist2_to(b) == 0 {
        assert(a.x - b.x == 0) by (nonlinear_arith)
            requires
                (a.x - b.x) * (a.x - b.x) == 0,
        ;
        assert(a.y - b.y == 0) by (nonlinear_arith)
            requires
                (a.y - b.y) * (a.y - b.y) == 0,
        ;
        assert(a.z - b.z == 0) by (nonlinear_arith)
            requires
                (a.z - b.z) * (a.z - b.z) == 0,
        ;
    }
}

proof fn lemma_chosen_has_no_clearance(chosen: Seq<Point>, p: Point)
    requires
        chosen.contains(p),
    ensures
        clearance(chosen, p, chosen.len()) <= 0,
{
    let k = choose|k: int| 0 <= k < chosen.len() && chosen[k] == p;
    lemma_clearance_below(chosen, p, k, chosen.len());
    lemma_dist_zero(p, p);
}

proof fn lemma_clearance_below(chosen: Seq<Point>, p: Point, k: int, n: nat)
    requires
        0 <= k < n <= chosen.len(),
    ensures
        clearance(chosen, p, n) <= chosen[k].dist2_to(p),
    decreases n,
{
    if k < n - 1 {
        lemma_clearance_below(chosen, p, k, (n - 1) as nat);
    }
}

proof fn lemma_no_clearance_is_chosen(chosen: Seq<Point>, p: Point, n: nat)
    requires
        n <= chosen.len(),
        clearance(chosen, p, n) <= 0,
    ensures
        chosen.contains(p),
    decreases n,
{
    if n > 0 {
        lemma_dist_zero(chosen[n - 1], p);
        if clearance(chosen, p, (n - 1) as nat) <= 0 {
            lemma_no_clearance_is_chosen(chosen, p, (n - 1) as nat);
        }
    }
}

// ---- The pool ----

/// The pads among the first `n` that stand on `home`, snapped to the floor.
pub open spec fn pads_home(
    pads: Seq<PadProbe>,
    yaws: Seq<i32>,
    home: Option<u32>,
    n: nat,
) -> Seq<SpawnPad>
    decreases n,
{
    if n == 0 {
        Seq::empty()
    } else {
        let rest = pads_home(pads, yaws, home, (n - 1) as nat);
        if pads[n - 1].snapped_comp == home {
            rest.push(SpawnPad { pos: pads[n - 1].snapped, yaw: yaws[n - 1] })
        } else {
            rest
        }
    }
}

/// Whether `pool` is what a hunt takes its pads from: the authored ones on the component that
/// holds most of them, or one at the marker when the level has none.
pub open spec fn is_pad_pool(
    pads: Seq<PadProbe>,
    yaws: Seq<i32>,
    marker: Point,
    pool: Seq<SpawnPad>,
) -> bool {
    if pads.len() == 0 {
        pool == seq![SpawnPad { pos: marker, yaw: 0 }]
    } else {
        exists|home: Option<u32>| #[trigger]
            is_pad_home(pad_comps(pads), home) && pool == pads_home(pads, yaws, home, pads.len())
    }
}

proof fn lemma_home_has_a_pad(pads: Seq<PadProbe>, yaws: Seq<i32>, home: Option<u32>, k: int, n: nat)
    requires
        0 <= k < n <= pads.len(),
        pads[k].snapped_comp == home,
    ensures
        pads_home(pads, yaws, home, n).len() > 0,
    decreases n,
{
    if k < n - 1 {
        lemma_home_has_a_pad(pads, yaws, home, k, (n - 1) as nat);
    }
}

impl World {
    /// Fills the pool of a hunt: the pads (with the ways they face), the place that the wave
    /// is counted from, and the points that hunters are sent to look at, spread over the floor.
    /// `marker` is where the fixed marker was snapped to, if there is floor for it; `interior`
    /// is the floor clear of the walls.
    pub fn prepare_spawn(
        &mut self,
        pads: &Vec<PadProbe>,
        yaws: &Vec<i32>,
        marker: Option<Point>,
        standable: &Vec<Point>,
        interior: &Vec<Point>,
    )
        requires
            yaws@.len() == pads@.len(),
        ensures
            is_pad_pool(
                pads@,
                yaws@,
                match marker {
                    Some(m) => m,
                    None => marker_pos(),
                },
                final(self).spawn.pads@,
            ),
            final(self).spawn.pads@.len() > 0,
            final(self).spawn.point == final(self).spawn.pads@[0].pos,
            is_spread_pick(
                standable@,
                interior@,
                final(self).spawn.point,
                SEARCH_POINT_COUNT,
                final(self).spawn.search_points@,
            ),
            final(self).doors@.len() == 0,
            *final(self) == (World {
                spawn: final(self).spawn,
                doors: final(self).doors,
                ..*old(self)
            }),
    {
        self.doors.clear();
        let mut pool: Vec<SpawnPad> = Vec::new();
        if pads.len() == 0 {
            let at: Point = match marker {
                Some(m) => m,
                None => spawn_marker(),
            };
            pool.push(SpawnPad { pos: at, yaw: 0 });
            assert(pool@ =~= seq![SpawnPad { pos: at, yaw: 0 }]);
        } else {
            let mut comps: Vec<Option<u32>> = Vec::new();
            let mut k: usize = 0;
            while k < pads.len()
                invariant
                    k <= pads@.len(),
                    comps@.len() == k,
                    forall|i: int| 0 <= i < k ==> #[trigger] comps@[i] == pads@[i].snapped_comp,
                decreases pads@.len() - k,
            {
                comps.push(pads[k].snapped_comp);
                k = k + 1;
            }
            assert(comps@ =~= pad_comps(pads@));
            let (home, _): (Option<u32>, Vec<usize>) = partition_pads(&comps);
            let mut j: usize = 0;
            while j < pads.len()
                invariant
                    j <= pads@.len(),
                    yaws@.len() == pads@.len(),
                    pool@ == pads_home(pads@, yaws@, home, j as nat),
                decreases pads@.len() - j,
            {
                let same: bool = match (pads[j].snapped_comp, home) {
                    (Some(a), Some(b)) => a == b,
                    (None, None) => true,
                    _ => false,
                };
                if same {
                    pool.push(SpawnPad { pos: pads[j].snapped, yaw: yaws[j] });
                }
                j = j + 1;
            }
            proof {
                let k = choose|k: int| 0 <= k < comps@.len() && comps@[k] == home;
                lemma_home_has_a_pad(pads@, yaws@, home, k, pads@.len());
            }
        }
        let point: Point = pool[0].pos;
        let search_points: Vec<Point> = pick_spread_spawns(
            standable,
            interior,
            point,
            SEARCH_POINT_COUNT,
        );
        self.spawn = SpawnPool { pads: pool, point, search_points };
    }
}

/// Counts one more body on pad `pad`; the result is how many were there before.
pub fn take_pad(per_pad: &mut Vec<usize>, pad: usize) -> (n: usize)
    requires
        pad < old(per_pad)@.len() ==> old(per_pad)@[pad as int] < usize::MAX,
    ensures
        pad < old(per_pad)@.len() ==> n == old(per_pad)@[pad as int] && final(per_pad)@ == old(
            per_pad,
        )@.update(pad as int, (n + 1) as usize),
        pad >= old(per_pad)@.len() ==> n == 0 && final(per_pad)@ == old(per_pad)@,
{
    if pad < per_pad.len() {
        let n: usize = per_pad[pad];
        per_pad.set(pad, n + 1);
        n
    } else {
        0
    }
}

// ---- The radar ----

/// The side of the squares that the radar shows the floor in.
pub const RADAR_CELL: i32 = 1000;

/// Half the height of the slice that the radar shows.
pub const RADAR_FLOOR_BAND: i32 = 2000;

/// The box of the radar's grid that a point lies in.
pub open spec fn radar_box(p: Point) -> (int, int, int) {
    (
        p.x as int / RADAR_CELL as int,
        p.y as int / RADAR_FLOOR_BAND as int,
        p.z as int / RADAR_CELL as int,
    )
}

/// Whether a kept point lies in the box of `p`.
pub open spec fn box_taken(kept: Seq<Point>, p: Point) -> bool {
    exists|j: int| 0 <= j < kept.len() && radar_box(#[trigger] kept[j]) == radar_box(p)
}

/// The first point in each box, of the first `n`.
pub open spec fn decimated(cells: Seq<Point>, n: nat) -> Seq<Point>
    decreases n,
{
    if n == 0 {
        Seq::empty()
    } else {
        let kept = decimated(cells, (n - 1) as nat);
        if box_taken(kept, cells[n - 1]) {
            kept
        } else {
            kept.push(cells[n - 1])
        }
    }
}

fn same_box(a: &Point, b: &Point) -> (s: bool)
    ensures
        s == (radar_box(*a) == radar_box(*b)),
{
    floor_div(a.x, RADAR_CELL) == floor_div(b.x, RADAR_CELL) && floor_div(a.y, RADAR_FLOOR_BAND)
        == floor_div(b.y, RADAR_FLOOR_BAND) && floor_div(a.z, RADAR_CELL) == floor_div(
        b.z,
        RADAR_CELL,
    )
}

/// One hunter on the radar: how far east, south and up of the player it is.
#[derive(Clone, Copy, PartialEq, Eq, Debug, Structural)]
pub struct RadarBlip {
    pub id: usize,
    pub dx: i64,
    pub dz: i64,
    pub dy: i64,
    pub dead: bool,
    pub engaged: bool,
    pub firing: bool,
}

/// What the radar shows: the floor on the player's storey and the hunters within range, as
/// offsets from the player.
pub struct RadarView {
    pub range: u32,
    pub floor: Vec<(i64, i64)>,
    pub blips: Vec<RadarBlip>,
}

/// Whether `p` is on the radar's disc around `origin`.
pub open spec fn on_disc(p: Point, origin: Point, range: u32) -> bool {
    p.flat2_to(origin) <= range * range
}

/// Whether `p` is on the storey of `origin`.
pub open spec fn on_storey(p: Point, origin: Point) -> bool {
    -RADAR_FLOOR_BAND <= p.y - origin.y <= RADAR_FLOOR_BAND
}

/// The floor that the radar shows, of the first `n` points.
pub open spec fn floor_shown(cells: Seq<Point>, origin: Point, range: u32, n: nat) -> Seq<(i64, i64)>
    decreases n,
{
    if n == 0 {
        Seq::empty()
    } else {
        let rest = floor_shown(cells, origin, range, (n - 1) as nat);
        let p = cells[n - 1];
        if on_disc(p, origin, range) && on_storey(p, origin) {
            rest.push(((p.x - origin.x) as i64, (p.z - origin.z) as i64))
        } else {
            rest
        }
    }
}

/// The hunters that the radar shows, of the first `n`.
pub open spec fn blips_shown(hs: Seq<Hunter>, origin: Point, range: u32, n: nat) -> Seq<RadarBlip>
    decreases n,
{
    if n == 0 {
        Seq::empty()
    } else {
        let rest = blips_shown(hs, origin, range, (n - 1) as nat);
        let h = hs[n - 1];
        if on_disc(h.pos, origin, range) {
            rest.push(
                RadarBlip {
                    id: (n - 1) as usize,
                    dx: (h.pos.x - origin.x) as i64,
                    dz: (h.pos.z - origin.z) as i64,
                    dy: (h.pos.y - origin.y) as i64,
                    dead: h.dead,
                    engaged: h.engaged,
                    firing: h.fire_elapsed is Some,
                },
            )
        } else {
            rest
        }
    }
}

fn disc_holds(p: &Point, origin: &Point, range: u32) -> (b: bool)
    ensures
        b == on_disc(*p, *origin, range),
{
    let r: u128 = range as u128;
    assert(0 <= r * r <= 0xffff_ffff * 0xffff_ffff) by (nonlinear_arith)
        requires
            0 <= r <= 0xffff_ffff,
    ;
    p.flat2(origin) <= r * r
}

impl World {
    /// Keeps one floor point per box of the radar's grid, the first in each.
    pub fn bake_radar_cells(&mut self, cells: &Vec<Point>)
        ensures
            final(self).radar_cells@ == decimated(cells@, cells@.len()),
            *final(self) == (World { radar_cells: final(self).radar_cells, ..*old(self) }),
    {
        let mut kept: Vec<Point> = Vec::new();
        let mut k: usize = 0;
        while k < cells.len()
            invariant
                k <= cells@.len(),
                kept@ == decimated(cells@, k as nat),
            decreases cells@.len() - k,
        {
            let p: Point = cells[k];
            let mut taken: bool = false;
            let mut j: usize = 0;
            while j < kept.len()
                invariant
                    j <= kept@.len(),
                    taken == exists|i: int|
                        0 <= i < j && radar_box(#[trigger] kept@[i]) == radar_box(p),
                decreases kept@.len() - j,
            {
                if same_box(&kept[j], &p) {
                    assert(radar_box(kept@[j as int]) == radar_box(p));
                    taken = true;
                }
                j = j + 1;
            }
            if !taken {
                kept.push(p);
            }
            k = k + 1;
        }
        self.radar_cells = kept;
    }

    /// What the radar shows, when there is a player to show it to.
    pub fn radar(&self, range: u32) -> (v: Option<RadarView>)
        ensures
            v is Some <==> self.player.pos is Some,
            v matches Some(r) ==> {
                let o = self.player.pos->0;
                &&& r.range == range
                &&& r.floor@ == floor_shown(self.radar_cells@, o, range, self.radar_cells@.len())
                &&& r.blips@ == blips_shown(self.hunters@, o, range, self.hunters@.len())
            },
    {
        let origin: Point = match self.player.pos {
            Some(p) => p,
            None => return None,
        };
        let mut floor: Vec<(i64, i64)> = Vec::new();
        let mut k: usize = 0;
        while k < self.radar_cells.len()
            invariant
                k <= self.radar_cells@.len(),
                floor@ == floor_shown(self.radar_cells@, origin, range, k as nat),
            decreases self.radar_cells@.len() - k,
        {
            let p: Point = self.radar_cells[k];
            let dy: i64 = p.y as i64 - origin.y as i64;
            if disc_holds(&p, &origin, range) && -(RADAR_FLOOR_BAND as i64) <= dy && dy
                <= RADAR_FLOOR_BAND as i64 {
                floor.push((p.x as i64 - origin.x as i64, p.z as i64 - origin.z as i64));
            }
            k = k + 1;
        }
        let mut blips: Vec<RadarBlip> = Vec::new();
        let mut j: usize = 0;
        while j < self.hunters.len()
            invariant
                j <= self.hunters@.len(),
                blips@ == blips_shown(self.hunters@, origin, range, j as nat),
            decreases self.hunters@.len() - j,
        {
            let h: Hunter = self.hunters[j];
            if disc_holds(&h.pos, &origin, range) {
                blips.push(
                    RadarBlip {
                        id: j,
                        dx: h.pos.x as i64 - origin.x as i64,
                        dz: h.pos.z as i64 - origin.z as i64,
                        dy: h.pos.y as i64 - origin.y as i64,
                        dead: h.dead,
                        engaged: h.engaged,
                        firing: h.fire_elapsed.is_some(),
                    },
                );
            }
            j = j + 1;
        }
        Some(RadarView { range, floor, blips })
    }
}

/// Every two living hunters that stand closer than 0.7 m on the floor plan are pushed apart,
/// nobody else is, and no two are pushed twice.
pub proof fn everyone_too_close_is_pushed_apart(hs: Seq<Hunter>)
    requires
        hs.len() <= usize::MAX,
    ensures
        forall|i: int, j: int|
            0 <= i < hs.len() && 0 <= j < hs.len() ==> (#[trigger] close_pairs(
                hs,
                hs.len(),
            ).contains((i as usize, j as usize)) <==> i < j && !hs[i].dead && !hs[j].dead
                && hs[i].pos.flat2_to(hs[j].pos) < 700 * 700),
        forall|k: int|
            0 <= k < close_pairs(hs, hs.len()).len() ==> (#[trigger] close_pairs(
                hs,
                hs.len(),
            )[k]).0 < hs.len() && close_pairs(hs, hs.len())[k].1 < hs.len(),
        close_pairs(hs, hs.len()).no_duplicates(),
{
    lemma_close_pairs(hs, hs.len());
    assert forall|i: int, j: int|
        0 <= i < hs.len() && 0 <= j < hs.len() implies (#[trigger] close_pairs(
        hs,
        hs.len(),
    ).contains((i as usize, j as usize)) <==> i < j && !hs[i].dead && !hs[j].dead
        && hs[i].pos.flat2_to(hs[j].pos) < 700 * 700) by {
        crate::space::distance_is_symmetric(hs[i].pos, hs[j].pos);
    }
}

proof fn lemma_pairs_of(hs: Seq<Hunter>, i: int, n: nat)
    requires
        0 <= i < hs.len() <= usize::MAX,
        n <= hs.len(),
    ensures
        forall|k: int|
            0 <= k < pairs_of(hs, i, n).len() ==> (#[trigger] pairs_of(hs, i, n)[k]).0 == i
                && pairs_of(hs, i, n)[k].1 < n,
        forall|a: int, b: int|
            0 <= a < b < pairs_of(hs, i, n).len() ==> (#[trigger] pairs_of(hs, i, n)[a]).1 < (
            #[trigger] pairs_of(hs, i, n)[b]).1,
        forall|j: int|
            0 <= j < n ==> (#[trigger] pairs_of(hs, i, n).contains((i as usize, j as usize))
                <==> i < j && !hs[i].dead && !hs[j].dead && hs[j].pos.flat2_to(hs[i].pos) < 700
                * 700),
    decreases n,
{
    if n > i + 1 {
        lemma_pairs_of(hs, i, (n - 1) as nat);
        let rest = pairs_of(hs, i, (n - 1) as nat);
        let all = pairs_of(hs, i, n);
        assert forall|j: int| 0 <= j < n implies (#[trigger] all.contains((i as usize, j as usize))
            <==> i < j && !hs[i].dead && !hs[j].dead && hs[j].pos.flat2_to(hs[i].pos) < 700
            * 700) by {
            let e = (i as usize, j as usize);
            if rest.contains(e) {
                let k = choose|k: int| 0 <= k < rest.len() && rest[k] == e;
                assert(all[k] == e);
            }
            if all.contains(e) && j < n - 1 {
                let k = choose|k: int| 0 <= k < all.len() && all[k] == e;
                assert(k < rest.len());
                assert(rest[k] == e);
            }
            if j == n - 1 {
                if too_close(hs[i], hs[j]) {
                    assert(all[rest.len() as int] == e);
                }
                if all.contains(e) {
                    let k = choose|k: int| 0 <= k < all.len() && all[k] == e;
                    if k < rest.len() {
                        assert(rest[k].1 < n - 1);
                    }
                }
            }
        }
    } else {
        assert(pairs_of(hs, i, n) =~= Seq::empty());
    }
}

proof fn lemma_close_pairs(hs: Seq<Hunter>, n: nat)
    requires
        n <= hs.len() <= usize::MAX,
    ensures
        forall|k: int|
            0 <= k < close_pairs(hs, n).len() ==> (#[trigger] close_pairs(hs, n)[k]).0 < n
                && close_pairs(hs, n)[k].1 < hs.len(),
        close_pairs(hs, n).no_duplicates(),
        forall|i: int, j: int|
            0 <= i < n && 0 <= j < hs.len() ==> (#[trigger] close_pairs(hs, n).contains(
                (i as usize, j as usize),
            ) <==> i < j && !hs[i].dead && !hs[j].dead && hs[j].pos.flat2_to(hs[i].pos) < 700
                * 700),
    decreases n,
{
    if n > 0 {
        lemma_close_pairs(hs, (n - 1) as nat);
        lemma_pairs_of(hs, n - 1, hs.len());
        let rest = close_pairs(hs, (n - 1) as nat);
        let more = pairs_of(hs, n - 1, hs.len());
        let all = close_pairs(hs, n);
        assert(all == rest + more);
        assert forall|k: int| 0 <= k < all.len() implies (#[trigger] all[k]).0 < n && all[k].1
            < hs.len() by {
            if k < rest.len() {
                assert(all[k] == rest[k]);
            } else {
                assert(all[k] == more[k - rest.len()]);
            }
        }
        assert forall|i: int, j: int| 0 <= i < n && 0 <= j < hs.len() implies (
        #[trigger] all.contains((i as usize, j as usize)) <==> i < j && !hs[i].dead && !hs[j].dead
            && hs[j].pos.flat2_to(hs[i].pos) < 700 * 700) by {
            let e = (i as usize, j as usize);
            if all.contains(e) {
                let k = choose|k: int| 0 <= k < all.len() && all[k] == e;
                if k < rest.len() {
                    assert(rest[k] == e);
                    assert(rest.contains(e));
                    assert(i < n - 1);
                } else {
                    assert(more[k - rest.len()] == e);
                    assert(more.contains(e));
                    assert(i == n - 1);
                }
            }
            if i < n - 1 && rest.contains(e) {
                let k = choose|k: int| 0 <= k < rest.len() && rest[k] == e;
                assert(all[k] == e);
            }
            if i == n - 1 && more.contains(e) {
                let k = choose|k: int| 0 <= k < more.len() && more[k] == e;
                assert(all[rest.len() + k] == e);
            }
        }
        assert forall|a: int, b: int| 0 <= a < all.len() && 0 <= b < all.len() && a != b implies all[a]
            != all[b] by {
            if a < rest.len() && b < rest.len() {
                assert(rest[a] != rest[b]);
            } else if a >= rest.len() && b >= rest.len() {
                let (x, y) = (a - rest.len(), b - rest.len());
                if x < y {
                    assert(more[x].1 < more[y].1);
                } else {
                    assert(more[y].1 < more[x].1);
                }
            } else if a < rest.len() {
                assert(rest[a].0 < n - 1 && more[b - rest.len()].0 == n - 1);
            } else {
                assert(rest[b].0 < n - 1 && more[a - rest.len()].0 == n - 1);
            }
        }
    }
}

/// The radar shows every piece of floor within its range and within two metres of the player's
/// height, in order, by where it lies from the player, and nothing else.
pub proof fn the_radar_shows_the_floor_around_the_player(cells: Seq<Point>, origin: Point, range: u32, n: nat)
    requires
        n <= cells.len(),
    ensures
        floor_shown(cells, origin, range, n) == cells.take(n as int).filter(|p: Point| (p.x - origin.x) * (p.x - origin.x) + (p.z - origin.z) * (p.z - origin.z) <= range * range && -2000 <= p.y - origin.y <= 2000).map_values(|p: Point| ((p.x - origin.x) as i64, (p.z - origin.z) as i64)),
    decreases n,
{
    reveal(Seq::filter);
    let t = cells.take(n as int);
    if n > 0 {
        the_radar_shows_the_floor_around_the_player(cells, origin, range, (n - 1) as nat);
        assert(t.drop_last() =~= cells.take(n - 1));
        assert(t.last() == cells[n - 1]);
    } else {
        assert(t =~= Seq::empty());
    }
    assert(floor_shown(cells, origin, range, n) =~= t.filter(|p: Point| (p.x - origin.x) * (p.x - origin.x) + (p.z - origin.z) * (p.z - origin.z) <= range * range && -2000 <= p.y - origin.y <= 2000).map_values(|p: Point| ((p.x - origin.x) as i64, (p.z - origin.z) as i64)));
}

/// Whether a hunter is alive and in a fight of its own, knows where the player was, and is less
/// than twelve metres from `p`.
pub open spec fn fights_near(h: Hunter, p: Point) -> bool {
    !h.dead && h.engaged && h.last_known is Some && h.pos.dist2_to(p) < 12_000 * 12_000
}

/// Whether `to` is where the fight closest to `p` last knew the player to be.
#[verifier::opaque]
pub open spec fn is_word_of_the_closest_fight(hs: Seq<Hunter>, p: Point, to: Point) -> bool {
    exists|c: int|
        0 <= c < hs.len() && fights_near(#[trigger] hs[c], p) && hs[c].last_known == Some(to)
            && forall|j: int|
            0 <= j < hs.len() && fights_near(#[trigger] hs[j], p) ==> hs[c].pos.dist2_to(p)
                <= hs[j].pos.dist2_to(p)
}

/// Whether hunter `i` is alive, in no fight of its own, and near one.
#[verifier::opaque]
pub open spec fn misses_a_fight(hs: Seq<Hunter>, i: int) -> bool {
    !hs[i].dead && !hs[i].engaged && exists|j: int|
        0 <= j < hs.len() && fights_near(#[trigger] hs[j], hs[i].pos)
}

proof fn lemma_who_calls(hs: Seq<Hunter>, me: int)
    requires
        0 <= me < hs.len(),
    ensures
        misses_a_fight(hs, me) <==> listens(hs[me]) && nearest_contact(hs, hs[me].pos, hs.len())
            is Some,
        nearest_contact(hs, hs[me].pos, hs.len()) matches Some(c) ==> is_word_of_the_closest_fight(
            hs,
            hs[me].pos,
            hs[c].last_known->0,
        ),
{
    reveal(misses_a_fight);
    reveal(is_word_of_the_closest_fight);
    calls_come_from_the_closest_fight(hs, me);
    if let Some(c) = nearest_contact(hs, hs[me].pos, hs.len()) {
        assert(fights_near(hs[c], hs[me].pos));
        assert forall|j: int|
            0 <= j < hs.len() && fights_near(#[trigger] hs[j], hs[me].pos) implies hs[c].pos.dist2_to(
            hs[me].pos,
        ) <= hs[j].pos.dist2_to(hs[me].pos) by {
            assert(is_contact(hs[j]));
        }
    } else {
        assert forall|j: int| 0 <= j < hs.len() implies !fights_near(
            #[trigger] hs[j],
            hs[me].pos,
        ) by {
            if fights_near(hs[j], hs[me].pos) {
                assert(is_contact(hs[j]));
            }
        }
    }
}

/// Every living hunter that is in no fight, with a packmate in one within twelve metres, is
/// called once, in order; nobody else is. It is called to where the closest such packmate last
/// knew the player to be.
pub proof fn quiet_hunters_are_called_to_the_closest_fight(hs: Seq<Hunter>, n: nat)
    requires
        n <= hs.len() <= usize::MAX,
    ensures
        forall|k: int|
            0 <= k < calls(hs, n).len() ==> (#[trigger] calls(hs, n)[k]).0 < n
                && is_word_of_the_closest_fight(
                hs,
                hs[calls(hs, n)[k].0 as int].pos,
                calls(hs, n)[k].1,
            ),
        forall|a: int, b: int|
            0 <= a < b < calls(hs, n).len() ==> (#[trigger] calls(hs, n)[a]).0 < (
            #[trigger] calls(hs, n)[b]).0,
        forall|i: int|
            0 <= i < n ==> (#[trigger] misses_a_fight(hs, i) <==> exists|k: int|
                0 <= k < calls(hs, n).len() && (#[trigger] calls(hs, n)[k]).0 == i),
    decreases n,
{
    if n > 0 {
        quiet_hunters_are_called_to_the_closest_fight(hs, (n - 1) as nat);
        let rest = calls(hs, (n - 1) as nat);
        let all = calls(hs, n);
        lemma_who_calls(hs, n - 1);
        assert forall|i: int| 0 <= i < n implies (#[trigger] misses_a_fight(hs, i) <==> exists|k: int|
            0 <= k < all.len() && (#[trigger] all[k]).0 == i) by {
            if i < n - 1 {
                if exists|k: int| 0 <= k < rest.len() && (#[trigger] rest[k]).0 == i {
                    let k = choose|k: int| 0 <= k < rest.len() && (#[trigger] rest[k]).0 == i;
                    assert(all[k].0 == i);
                }
                if exists|k: int| 0 <= k < all.len() && (#[trigger] all[k]).0 == i {
                    let k = choose|k: int| 0 <= k < all.len() && (#[trigger] all[k]).0 == i;
                    assert(k < rest.len());
                    assert(rest[k].0 == i);
                }
            } else {
                if misses_a_fight(hs, i) {
                    assert(all[rest.len() as int].0 == i);
                }
                if exists|k: int| 0 <= k < all.len() && (#[trigger] all[k]).0 == i {
                    let k = choose|k: int| 0 <= k < all.len() && (#[trigger] all[k]).0 == i;
                    if k < rest.len() {
                        assert(rest[k].0 < n - 1);
                    }
                }
            }
        }
    }
}

/// Every hunter within the radar's range is a blip under its own number, in order, with where it
/// stands from the player and what it is about; nobody else is.
pub proof fn the_radar_shows_every_hunter_in_range(
    hs: Seq<Hunter>,
    origin: Point,
    range: u32,
    n: nat,
)
    requires
        n <= hs.len() <= usize::MAX,
    ensures
        forall|k: int|
            #![trigger blips_shown(hs, origin, range, n)[k]]
            0 <= k < blips_shown(hs, origin, range, n).len() ==> {
                let b = blips_shown(hs, origin, range, n)[k];
                let h = hs[b.id as int];
                &&& b.id < n
                &&& b.dx == h.pos.x - origin.x && b.dy == h.pos.y - origin.y && b.dz == h.pos.z
                    - origin.z
                &&& b.dead == h.dead && b.engaged == h.engaged && b.firing == (h.fire_elapsed
                    is Some)
            },
        forall|a: int, b: int|
            0 <= a < b < blips_shown(hs, origin, range, n).len() ==> (#[trigger] blips_shown(
                hs,
                origin,
                range,
                n,
            )[a]).id < (#[trigger] blips_shown(hs, origin, range, n)[b]).id,
        forall|i: int|
            0 <= i < n ==> ((exists|k: int|
                0 <= k < blips_shown(hs, origin, range, n).len() && (#[trigger] blips_shown(
                    hs,
                    origin,
                    range,
                    n,
                )[k]).id == i) <==> (#[trigger] hs[i]).pos.flat2_to(origin) <= range * range),
    decreases n,
{
    if n > 0 {
        the_radar_shows_every_hunter_in_range(hs, origin, range, (n - 1) as nat);
        let rest = blips_shown(hs, origin, range, (n - 1) as nat);
        let all = blips_shown(hs, origin, range, n);
        assert forall|i: int| 0 <= i < n implies ((exists|k: int|
            0 <= k < all.len() && (#[trigger] all[k]).id == i) <==> (
        #[trigger] hs[i]).pos.flat2_to(origin) <= range * range) by {
            if i < n - 1 {
                if exists|k: int| 0 <= k < rest.len() && (#[trigger] rest[k]).id == i {
                    let k = choose|k: int| 0 <= k < rest.len() && (#[trigger] rest[k]).id == i;
                    assert(all[k].id == i);
                }
                if exists|k: int| 0 <= k < all.len() && (#[trigger] all[k]).id == i {
                    let k = choose|k: int| 0 <= k < all.len() && (#[trigger] all[k]).id == i;
                    assert(k < rest.len());
                    assert(rest[k].id == i);
                }
            } else {
                if on_disc(hs[i].pos, origin, range) {
                    assert(all[rest.len() as int].id == i);
                }
                if exists|k: int| 0 <= k < all.len() && (#[trigger] all[k]).id == i {
                    let k = choose|k: int| 0 <= k < all.len() && (#[trigger] all[k]).id == i;
                    if k < rest.len() {
                        assert(rest[k].id < n - 1);
                    }
                }
            }
        }
    }
}

/// The radar's floor keeps one piece for each box of a metre by a metre by two metres of height
/// in which there is floor: no two share a box, every piece of floor has one in its own box, and
/// each is a piece of the floor.
pub proof fn the_radar_keeps_one_piece_of_floor_per_box(cells: Seq<Point>, n: nat)
    requires
        n <= cells.len(),
    ensures
        forall|a: int, b: int|
            0 <= a < b < decimated(cells, n).len() ==> !same_radar_box(
                #[trigger] decimated(cells, n)[a],
                #[trigger] decimated(cells, n)[b],
            ),
        forall|i: int|
            #![trigger cells[i]]
            0 <= i < n ==> exists|k: int|
                0 <= k < decimated(cells, n).len() && same_radar_box(
                    #[trigger] decimated(cells, n)[k],
                    cells[i],
                ),
        forall|k: int|
            0 <= k < decimated(cells, n).len() ==> cells.contains(#[trigger] decimated(cells, n)[k]),
    decreases n,
{
    if n > 0 {
        the_radar_keeps_one_piece_of_floor_per_box(cells, (n - 1) as nat);
        let kept = decimated(cells, (n - 1) as nat);
        let all = decimated(cells, n);
        let p = cells[n - 1];
        if box_taken(kept, p) {
            let j = choose|j: int|
                0 <= j < kept.len() && radar_box(#[trigger] kept[j]) == radar_box(p);
            assert(same_radar_box(all[j], p));
        } else {
            assert(all[kept.len() as int] == p);
            assert(same_radar_box(all[kept.len() as int], p));
        }
        assert forall|i: int| #![trigger cells[i]] 0 <= i < n implies exists|k: int|
            0 <= k < all.len() && same_radar_box(#[trigger] all[k], cells[i]) by {
            if i < n - 1 {
                let k = choose|k: int|
                    0 <= k < kept.len() && same_radar_box(#[trigger] kept[k], cells[i]);
                assert(all[k] == kept[k]);
                assert(same_radar_box(all[k], cells[i]));
            }
        }
        assert forall|a: int, b: int| 0 <= a < b < all.len() implies !same_radar_box(
            #[trigger] all[a],
            #[trigger] all[b],
        ) by {
            if b < kept.len() {
                assert(all[a] == kept[a] && all[b] == kept[b]);
            } else {
                assert(radar_box(kept[a]) != radar_box(p));
            }
        }
        assert forall|k: int| 0 <= k < all.len() implies cells.contains(#[trigger] all[k]) by {
            if k < kept.len() {
                assert(all[k] == kept[k]);
            } else {
                assert(cells[n - 1] == all[k]);
            }
        }
    }
}

/// Whether two points lie in one box, a metre by a metre on the floor plan and two metres high.
pub open spec fn same_radar_box(p: Point, q: Point) -> bool {
    p.x as int / 1000 == q.x as int / 1000 && p.y as int / 2000 == q.y as int / 2000 && p.z as int
        / 1000 == q.z as int / 1000
}

/// The pool of a level with pads is the pads of one component, snapped and in order, each facing
/// as it was authored; a level without pads has its marker.
pub proof fn bodies_enter_where_the_pads_of_one_component_stand(
    pads: Seq<PadProbe>,
    yaws: Seq<i32>,
    marker: Point,
    pool: Seq<SpawnPad>,
)
    requires
        is_pad_pool(pads, yaws, marker, pool),
        yaws.len() == pads.len(),
    ensures
        pads.len() == 0 ==> pool == seq![SpawnPad { pos: marker, yaw: 0 }],
        pads.len() > 0 ==> exists|home: Option<u32>|
            #![trigger is_pad_home(pad_comps(pads), home)]
            is_pad_home(pad_comps(pads), home) && pool == Seq::new(
                pads.len(),
                |i: int| (pads[i], yaws[i]),
            ).filter(|e: (PadProbe, i32)| e.0.snapped_comp == home).map_values(
                |e: (PadProbe, i32)| SpawnPad { pos: e.0.snapped, yaw: e.1 },
            ),
{
    if pads.len() > 0 {
        let home = choose|home: Option<u32>| #[trigger]
            is_pad_home(pad_comps(pads), home) && pool == pads_home(pads, yaws, home, pads.len());
        lemma_pads_home(pads, yaws, home, pads.len());
        let both = Seq::new(pads.len(), |i: int| (pads[i], yaws[i]));
        assert(both.take(pads.len() as int) =~= both);
    }
}

proof fn lemma_pads_home(pads: Seq<PadProbe>, yaws: Seq<i32>, home: Option<u32>, n: nat)
    requires
        n <= pads.len(),
    ensures
        pads_home(pads, yaws, home, n) == Seq::new(pads.len(), |i: int| (pads[i], yaws[i])).take(
            n as int,
        ).filter(|e: (PadProbe, i32)| e.0.snapped_comp == home).map_values(
            |e: (PadProbe, i32)| SpawnPad { pos: e.0.snapped, yaw: e.1 },
        ),
    decreases n,
{
    reveal(Seq::filter);
    let both = Seq::new(pads.len(), |i: int| (pads[i], yaws[i]));
    let t = both.take(n as int);
    if n > 0 {
        lemma_pads_home(pads, yaws, home, (n - 1) as nat);
        assert(t.drop_last() =~= both.take(n - 1));
        assert(t.last() == both[n - 1]);
    } else {
        assert(t =~= Seq::empty());
    }
    assert(pads_home(pads, yaws, home, n) =~= t.filter(
        |e: (PadProbe, i32)| e.0.snapped_comp == home,
    ).map_values(|e: (PadProbe, i32)| SpawnPad { pos: e.0.snapped, yaw: e.1 }));
}

/// Where hunter `k` is going, or stands while it has nowhere to go.
pub open spec fn bound_for(hs: Seq<Hunter>, k: int) -> Point {
    match hs[k].search_target {
        Some(p) => p,
        None => hs[k].pos,
    }
}

proof fn lemma_unclaimed(hs: Seq<Hunter>, me: int, p: Point, n: nat)
    requires
        n <= hs.len(),
    ensures
        forall|k: int|
            0 <= k < n && k != me ==> unclaimed(hs, me, p, n) <= (#[trigger] bound_for(
                hs,
                k,
            )).dist2_to(p) < u128::MAX,
        unclaimed(hs, me, p, n) == u128::MAX || exists|k: int|
            0 <= k < n && k != me && unclaimed(hs, me, p, n) == (#[trigger] bound_for(
                hs,
                k,
            )).dist2_to(p),
    decreases n,
{
    if n > 0 {
        lemma_unclaimed(hs, me, p, (n - 1) as nat);
        crate::space::distances_are_bounded(bound_for(hs, n - 1), p);
        assert(headed(hs[n - 1]) == bound_for(hs, n - 1));
    }
}

/// A searcher goes to one of the places there are, or to the player or the entrance when there
/// are none. Where it can it goes at least two metres, and then to a place that the others leave
/// alone the most: to every other place as far away, some packmate is bound to come at least as
/// close as any packmate comes to the one picked.
pub proof fn a_searcher_goes_where_the_others_do_not(
    map: SearchMap,
    hs: Seq<Hunter>,
    me: int,
    p: Point,
    q: Point,
    k: int,
)
    requires
        map.is_pick(hs, me, p),
        0 <= me < hs.len(),
        map.points.contains(q),
        q.dist2_to(hs[me].pos) >= 2000 * 2000,
        0 <= k < hs.len(),
        k != me,
    ensures
        map.points.contains(p),
        p.dist2_to(hs[me].pos) >= 2000 * 2000,
        exists|j: int|
            0 <= j < hs.len() && j != me && (#[trigger] bound_for(hs, j)).dist2_to(q) <= bound_for(
                hs,
                k,
            ).dist2_to(p),
{
    let at = choose|at: int| 0 <= at < map.points.len() && map.points[at] == q;
    assert(worth_going(map.points[at], map.start(hs, me)));
    let i = choose|i: int| #[trigger] map.is_choice(hs, me, i) && p == map.points[i];
    lemma_unclaimed(hs, me, p, hs.len());
    lemma_unclaimed(hs, me, q, hs.len());
    assert(unclaimed(hs, me, q, hs.len()) <= unclaimed(hs, me, p, hs.len()));
    assert(unclaimed(hs, me, p, hs.len()) <= bound_for(hs, k).dist2_to(p));
}

/// A searcher with nowhere two metres away goes to the first place there is, and one without any
/// place to the player, or else to the entrance.
pub proof fn a_searcher_always_has_somewhere_to_go(
    map: SearchMap,
    hs: Seq<Hunter>,
    me: int,
    p: Point,
)
    requires
        map.is_pick(hs, me, p),
        0 <= me < hs.len(),
    ensures
        map.points.len() == 0 && map.player is Some ==> Some(p) == map.player,
        map.points.len() == 0 && map.player is None ==> p == map.home,
        map.points.len() > 0 ==> map.points.contains(p),
        map.points.len() > 0 && (forall|j: int|
            0 <= j < map.points.len() ==> (#[trigger] map.points[j]).dist2_to(hs[me].pos) < 2000
                * 2000) ==> p == map.points[0],
{
    if map.points.len() > 0 {
        if forall|j: int|
            0 <= j < map.points.len() ==> !worth_going(
                #[trigger] map.points[j],
                map.start(hs, me),
            ) {
            assert(map.points[0] == p);
        } else {
            let i = choose|i: int| #[trigger] map.is_choice(hs, me, i) && p == map.points[i];
            assert(worth_going(map.points[i], map.start(hs, me)));
        }
    }
}

proof fn lemma_clearance(chosen: Seq<Point>, p: Point, n: nat)
    requires
        n <= chosen.len(),
    ensures
        forall|k: int|
            0 <= k < n ==> clearance(chosen, p, n) <= (#[trigger] chosen[k]).dist2_to(p)
                < u128::MAX,
        n > 0 ==> exists|k: int|
            0 <= k < n && clearance(chosen, p, n) == (#[trigger] chosen[k]).dist2_to(p),
        n == 0 ==> clearance(chosen, p, n) == u128::MAX,
    decreases n,
{
    if n > 0 {
        lemma_clearance(chosen, p, (n - 1) as nat);
        crate::space::distances_are_bounded(chosen[n - 1], p);
    }
}

/// The search places are different cells of the level's interior, or of the whole level where the
/// interior has too few, and as many as were asked for unless there are no more cells.
pub proof fn search_places_are_cells_of_the_level(
    all: Seq<Point>,
    interior: Seq<Point>,
    player: Point,
    n: usize,
    out: Seq<Point>,
)
    requires
        is_spread_pick(all, interior, player, n, out),
    ensures
        out.no_duplicates(),
        out.len() <= n,
        interior.len() >= n ==> forall|k: int| 0 <= k < out.len() ==> interior.contains(#[trigger] out[k]),
        interior.len() < n ==> forall|k: int| 0 <= k < out.len() ==> all.contains(#[trigger] out[k]),
        out.len() < n && interior.len() >= n ==> forall|j: int|
            0 <= j < interior.len() ==> out.contains(#[trigger] interior[j]),
        out.len() < n && interior.len() < n ==> forall|j: int|
            0 <= j < all.len() ==> out.contains(#[trigger] all[j]),
{
    let cells = spread_cells(all, interior, n);
    assert forall|k: int| 0 <= k < out.len() implies cells.contains(#[trigger] out[k]) by {
        if k > 0 {
            assert(is_spread_step(cells, out, k));
        }
    }
}

/// The first search place is as far from the player as any cell, and each later one lies as far
/// from those before it as any cell could: every cell has an earlier place at least as close as
/// the closest one is to the place that was taken.
pub proof fn search_places_spread_out(
    all: Seq<Point>,
    interior: Seq<Point>,
    player: Point,
    n: usize,
    out: Seq<Point>,
    k: int,
    c: Point,
)
    requires
        is_spread_pick(all, interior, player, n, out),
        0 <= k < out.len(),
        (interior.len() >= n && interior.contains(c)) || (interior.len() < n && all.contains(c)),
    ensures
        k == 0 ==> player.dist2_to(c) <= player.dist2_to(out[0]),
        k > 0 ==> exists|a: int|
            0 <= a < k && forall|b: int|
                0 <= b < k ==> (#[trigger] out[a]).dist2_to(c) <= (#[trigger] out[b]).dist2_to(
                    out[k],
                ),
{
    let cells = spread_cells(all, interior, n);
    let j = choose|j: int| 0 <= j < cells.len() && cells[j] == c;
    if k == 0 {
        let i = choose|i: int| #[trigger]
            is_farthest(cells, seq![player], i) && out[0] == cells[i];
        lemma_clearance(seq![player], c, 1);
        lemma_clearance(seq![player], out[0], 1);
        assert(clearance(seq![player], cells[j], 1) <= clearance(seq![player], cells[i], 1));
        assert(seq![player][0] == player);
    } else {
        assert(is_spread_step(cells, out, k));
        let before = out.take(k);
        let i = choose|i: int| #[trigger] is_farthest(cells, before, i) && out[k] == cells[i];
        lemma_clearance(before, c, before.len());
        lemma_clearance(before, out[k], before.len());
        assert(clearance(before, cells[j], before.len()) <= clearance(
            before,
            cells[i],
            before.len(),
        ));
        let a = choose|a: int|
            0 <= a < before.len() && clearance(before, c, before.len()) == (
            #[trigger] before[a]).dist2_to(c);
        assert forall|b: int| 0 <= b < k implies out[a].dist2_to(c) <= (
        #[trigger] out[b]).dist2_to(out[k]) by {
            assert(before[b] == out[b]);
            assert(before[a] == out[a]);
        }
    }
}

/// Of places that are equally free of others, the searcher takes the first: somebody is bound
/// closer to every earlier place than anybody is to the one that it takes.
pub proof fn the_first_of_the_freest_places_is_taken(
    map: SearchMap,
    hs: Seq<Hunter>,
    me: int,
    i: int,
    j: int,
    k: int,
)
    requires
        map.is_choice(hs, me, i),
        0 <= me < hs.len(),
        0 <= j < i,
        map.points[j].dist2_to(hs[me].pos) >= 2000 * 2000,
        0 <= k < hs.len(),
        k != me,
    ensures
        exists|m: int|
            0 <= m < hs.len() && m != me && (#[trigger] bound_for(hs, m)).dist2_to(map.points[j])
                < bound_for(hs, k).dist2_to(map.points[i]),
{
    assert(worth_going(map.points[j], map.start(hs, me)));
    lemma_unclaimed(hs, me, map.points[i], hs.len());
    lemma_unclaimed(hs, me, map.points[j], hs.len());
    assert(unclaimed(hs, me, map.points[i], hs.len()) <= bound_for(hs, k).dist2_to(map.points[i]));
}

} // verus!
