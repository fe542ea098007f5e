//! A watch on the hunters for behaviour that looks broken: staring, dithering, walking on the
//! spot, standing inside one another, and falling through the floor.
use vstd::prelude::*;

use crate::hunter::AiState;
use crate::space::Point;
use crate::ticks::{advance, later};

verus! {

/// A visible player in range who is not shot at for this long is being stared at.
pub const STALL_TICKS: u32 = 3600;

/// The range within which a visible player should be shot at.
pub const STALL_ENGAGE_RANGE: u32 = 12_000;

/// More changes of mind than this within a second are dithering.
pub const THRASH_PER_SEC: usize = 6;

/// The window of the dithering count: one second.
pub const THRASH_WINDOW: u64 = 1200;

/// Legs that move for this long without getting anywhere walk on the spot.
pub const WALK_IN_PLACE_TICKS: u32 = 1800;

/// Travel that counts as getting somewhere.
pub const WALK_IN_PLACE_DISP: u32 = 300;

/// Legs count as moving above this speed.
pub const WALK_SPEED: u32 = 100;

/// A step of the height larger than this is a fall through the level.
pub const ILLEGAL_Y_STEP: u32 = 1000;

/// Two hunters closer than this stand inside one another.
pub const OVERLAP_DIST: u32 = 340;

/// For how long they may.
pub const OVERLAP_TICKS: u32 = 1200;

/// How close a packmate counts as crowding.
pub const CROWD_DIST: u32 = 1000;

#[derive(Clone, Copy, PartialEq, Eq, Debug, Structural)]
pub enum ViolationKind {
    Overlap,
    Stall,
    Thrash,
    WalkInPlace,
    IllegalY,
}

/// One flagged defect, with enough to reproduce it.
#[derive(Clone, Copy, PartialEq, Eq, Debug, Structural)]
pub struct Violation {
    pub kind: ViolationKind,
    pub enemy: usize,
    /// When it was flagged.
    pub t: u64,
    pub state: AiState,
    pub at: Point,
    /// Where it was one step before, if it was watched then.
    pub from: Option<Point>,
    /// How fast its legs went, in millimetres per second.
    pub speed: u32,
    /// For how long it had overlapped, stared or walked on the spot; nothing for the others.
    pub lasted: u32,
    /// How bad it was: the square of the gap to the nearest packmate, of the distance to the
    /// player or of the way travelled; the number of changes; or the height of the fall.
    pub measure: u128,
    /// How many packmates crowded a hunter that walked on the spot.
    pub crowd: usize,
}

/// What is seen of one hunter in one step.
#[derive(Clone, Copy, PartialEq, Eq, Debug, Structural)]
pub struct HunterSample {
    pub pos: Point,
    pub state: AiState,
    /// How fast its legs go, in millimetres per second.
    pub speed: u32,
    pub dead: bool,
    pub firing: bool,
    /// Whether the level leaves the view to the player clear.
    pub los: bool,
    /// Whether a packmate stands in that view.
    pub packmate_block: bool,
}

/// The running counts on one hunter.
#[derive(Clone, Copy, PartialEq, Eq, Debug, Structural)]
pub struct Track {
    pub prev_state: Option<AiState>,
    /// How long it has stared.
    pub stare: u32,
    /// How long its legs have moved on the spot, and since where.
    pub still: u32,
    pub still_anchor: Point,
    pub prev_pos: Option<Point>,
    /// In how many steps a packmate stood in its view.
    pub packmate_blocks: u32,
    /// How long it has stood inside a packmate.
    pub overlap: u32,
    pub ever_fired: bool,
}

pub struct JankMonitor {
    pub t: u64,
    pub tracks: Vec<Track>,
    /// When each hunter changed its mind.
    pub trans_times: Vec<Vec<u64>>,
    pub violations: Vec<Violation>,
}

pub open spec fn sq(n: u32) -> int {
    n * n
}

/// Whether `j` is another living hunter.
pub open spec fn is_packmate(s: Seq<HunterSample>, i: int, j: int) -> bool {
    0 <= j < s.len() && j != i && !s[j].dead
}

/// The square of the distance on the floor plan to the nearest packmate among the first `n`.
pub open spec fn nearest_packmate(s: Seq<HunterSample>, i: int, n: nat) -> Option<int>
    decreases n,
{
    if n == 0 {
        None
    } else {
        let rest = nearest_packmate(s, i, (n - 1) as nat);
        if !is_packmate(s, i, n - 1) {
            rest
        } else {
            let d = s[n - 1].pos.flat2_to(s[i].pos);
            match rest {
                Some(r) => if r <= d {
                    Some(r)
                } else {
                    Some(d)
                },
                None => Some(d),
            }
        }
    }
}

/// How many packmates among the first `n` crowd hunter `i`.
pub open spec fn crowd_of(s: Seq<HunterSample>, i: int, n: nat) -> nat
    decreases n,
{
    if n == 0 {
        0
    } else {
        crowd_of(s, i, (n - 1) as nat) + if is_packmate(s, i, n - 1) && s[n - 1].pos.dist2_to(
            s[i].pos,
        ) < sq(CROWD_DIST) {
            1nat
        } else {
            0nat
        }
    }
}

/// How many of the first `n` times are at or after `from`.
pub open spec fn since(times: Seq<u64>, from: int, n: nat) -> nat
    decreases n,
{
    if n == 0 {
        0
    } else {
        since(times, from, (n - 1) as nat) + if times[n - 1] >= from {
            1nat
        } else {
            0nat
        }
    }
}

/// A count that runs while `on`, flags when it reaches `limit`, and then starts over: the
/// count, and whether it flags.
pub open spec fn streak(count: u32, on: bool, dt: u32, limit: u32) -> (u32, bool) {
    if !on {
        (0, false)
    } else if later(count, dt) >= limit {
        (0, true)
    } else {
        (later(count, dt), false)
    }
}

fn run_streak(count: u32, on: bool, dt: u32, limit: u32) -> (r: (u32, bool))
    ensures
        r == streak(count, on, dt, limit),
{
    if !on {
        return (0, false);
    }
    let now: u32 = advance(count, dt);
    if now >= limit {
        (0, true)
    } else {
        (now, false)
    }
}

/// Whether hunter `i` stands inside a packmate.
pub open spec fn overlaps(s: Seq<HunterSample>, i: int) -> bool {
    nearest_packmate(s, i, s.len()) matches Some(d) && d < sq(OVERLAP_DIST)
}

/// Whether hunter `i` could shoot the player and does not.
pub open spec fn stares(h: HunterSample, player: Point) -> bool {
    h.los && h.pos.flat2_to(player) <= sq(STALL_ENGAGE_RANGE) && !h.firing
}

/// The changes of mind after this step, and whether they are dithering.
pub open spec fn changes(times: Seq<u64>, track: Track, h: HunterSample, t: u64) -> (Seq<u64>, bool) {
    if track.prev_state is None || track.prev_state == Some(h.state) {
        (times, false)
    } else {
        let all = times.push(t);
        if since(all, t - THRASH_WINDOW, all.len()) > THRASH_PER_SEC {
            (Seq::empty(), true)
        } else {
            (all, false)
        }
    }
}

/// The count of walking on the spot: the time, where it began, and whether it flags.
pub open spec fn walked(track: Track, h: HunterSample, dt: u32) -> (u32, Point, bool) {
    if h.speed <= WALK_SPEED {
        (0, track.still_anchor, false)
    } else {
        let anchor = if track.still == 0 {
            h.pos
        } else {
            track.still_anchor
        };
        let time = later(track.still, dt);
        let moved = h.pos.flat2_to(anchor) >= sq(WALK_IN_PLACE_DISP);
        if moved {
            (0, anchor, false)
        } else if time >= WALK_IN_PLACE_TICKS {
            (0, anchor, true)
        } else {
            (time, anchor, false)
        }
    }
}

/// How far the height changed since the last step.
pub open spec fn y_step(track: Track, h: HunterSample) -> int {
    match track.prev_pos {
        Some(p) => if h.pos.y >= p.y {
            h.pos.y - p.y
        } else {
            p.y - h.pos.y
        },
        None => 0,
    }
}

/// The counts on hunter `i` after a step in which it lives.
pub open spec fn noted(
    track: Track,
    s: Seq<HunterSample>,
    i: int,
    player: Point,
    dt: u32,
) -> Track {
    let h = s[i];
    Track {
        prev_state: Some(h.state),
        stare: streak(track.stare, stares(h, player), dt, STALL_TICKS).0,
        still: walked(track, h, dt).0,
        still_anchor: walked(track, h, dt).1,
        prev_pos: Some(h.pos),
        packmate_blocks: if h.packmate_block {
            later(track.packmate_blocks, 1)
        } else {
            track.packmate_blocks
        },
        overlap: streak(track.overlap, overlaps(s, i), dt, OVERLAP_TICKS).0,
        ever_fired: track.ever_fired || h.firing,
    }
}

pub open spec fn flag_if(on: bool, v: Violation) -> Seq<Violation> {
    if on {
        seq![v]
    } else {
        Seq::empty()
    }
}

/// What is flagged of hunter `i` in a step in which it lives.
pub open spec fn flagged(
    track: Track,
    times: Seq<u64>,
    s: Seq<HunterSample>,
    i: int,
    player: Point,
    t: u64,
    dt: u32,
) -> Seq<Violation> {
    let h = s[i];
    let v = Violation {
        kind: ViolationKind::Overlap,
        enemy: i as usize,
        t,
        state: h.state,
        at: h.pos,
        from: track.prev_pos,
        speed: h.speed,
        lasted: 0,
        measure: 0,
        crowd: 0,
    };
    overlap_flag(track.overlap, s, i, v, dt) + stall_flag(track.stare, h, player, v, dt)
        + thrash_flag(times, track, h, v) + walk_flag(track, s, i, v, dt) + fall_flag(track, h, v)
}

/// Everything that is flagged of the first `n` hunters in a step.
pub open spec fn all_flagged(
    m: JankMonitor,
    s: Seq<HunterSample>,
    player: Point,
    t: u64,
    dt: u32,
    n: nat,
) -> Seq<Violation>
    decreases n,
{
    if n == 0 {
        Seq::empty()
    } else {
        let rest = all_flagged(m, s, player, t, dt, (n - 1) as nat);
        if s[n - 1].dead {
            rest
        } else {
            rest + flagged(m.tracks@[n - 1], m.trans_times@[n - 1]@, s, n - 1, player, t, dt)
        }
    }
}

/// How many hunters a step looks at.
pub open spec fn watched(m: JankMonitor, s: Seq<HunterSample>) -> nat {
    if m.tracks@.len() < s.len() {
        m.tracks@.len()
    } else {
        s.len()
    }
}

fn find_nearest(s: &Vec<HunterSample>, i: usize) -> (d: Option<u128>)
    requires
        i < s@.len(),
    ensures
        match d {
            Some(d) => nearest_packmate(s@, i as int, s@.len()) == Some(d as int),
            None => nearest_packmate(s@, i as int, s@.len()) is None,
        },
{
    let mut near: Option<u128> = None;
    let mut k: usize = 0;
    while k < s.len()
        invariant
            k <= s@.len(),
            i < s@.len(),
            match near {
                Some(d) => nearest_packmate(s@, i as int, k as nat) == Some(d as int),
                None => nearest_packmate(s@, i as int, k as nat) is None,
            },
        decreases s@.len() - k,
    {
        if k != i && !s[k].dead {
            let d: u128 = s[k].pos.flat2(&s[i].pos);
            near = match near {
                Some(r) => if r <= d {
                    Some(r)
                } else {
                    Some(d)
                },
                None => Some(d),
            };
        }
        k = k + 1;
    }
    near
}

fn count_crowd(s: &Vec<HunterSample>, i: usize) -> (n: usize)
    requires
        i < s@.len(),
    ensures
        n == crowd_of(s@, i as int, s@.len()),
{
    let mut n: usize = 0;
    let mut k: usize = 0;
    while k < s.len()
        invariant
            n <= k <= s@.len(),
            i < s@.len(),
            n == crowd_of(s@, i as int, k as nat),
        decreases s@.len() - k,
    {
        if k != i && !s[k].dead && s[k].pos.dist2(&s[i].pos) < 1_000_000 {
            n = n + 1;
        }
        k = k + 1;
    }
    n
}

fn count_since(times: &Vec<u64>, t: u64) -> (n: usize)
    ensures
        n == since(times@, t - THRASH_WINDOW, times@.len()),
{
    let mut n: usize = 0;
    let mut k: usize = 0;
    while k < times.len()
        invariant
            n <= k <= times@.len(),
            n == since(times@, t - THRASH_WINDOW, k as nat),
        decreases times@.len() - k,
    {
        if t < THRASH_WINDOW || times[k] >= t - THRASH_WINDOW {
            n = n + 1;
        }
        k = k + 1;
    }
    n
}

/// The flag of a hunter that stands inside a packmate.
pub open spec fn overlap_flag(
    count: u32,
    s: Seq<HunterSample>,
    i: int,
    v: Violation,
    dt: u32,
) -> Seq<Violation> {
    flag_if(
        streak(count, overlaps(s, i), dt, OVERLAP_TICKS).1,
        Violation {
            lasted: later(count, dt),
            measure: nearest_packmate(s, i, s.len())->0 as u128,
            ..v
        },
    )
}

/// The flag of a hunter that stares.
pub open spec fn stall_flag(
    count: u32,
    h: HunterSample,
    player: Point,
    v: Violation,
    dt: u32,
) -> Seq<Violation> {
    flag_if(
        streak(count, stares(h, player), dt, STALL_TICKS).1,
        Violation {
            kind: ViolationKind::Stall,
            lasted: later(count, dt),
            measure: h.pos.flat2_to(player) as u128,
            ..v
        },
    )
}

/// The flag of a hunter that dithers.
pub open spec fn thrash_flag(
    times: Seq<u64>,
    track: Track,
    h: HunterSample,
    v: Violation,
) -> Seq<Violation> {
    flag_if(
        changes(times, track, h, v.t).1,
        Violation {
            kind: ViolationKind::Thrash,
            measure: since(times.push(v.t), v.t - THRASH_WINDOW, times.len() + 1) as u128,
            ..v
        },
    )
}

/// The flag of a hunter that walks on the spot.
pub open spec fn walk_flag(
    track: Track,
    s: Seq<HunterSample>,
    i: int,
    v: Violation,
    dt: u32,
) -> Seq<Violation> {
    flag_if(
        walked(track, s[i], dt).2,
        Violation {
            kind: ViolationKind::WalkInPlace,
            lasted: later(track.still, dt),
            measure: s[i].pos.flat2_to(walked(track, s[i], dt).1) as u128,
            crowd: crowd_of(s, i, s.len()) as usize,
            ..v
        },
    )
}

/// The flag of a hunter that falls through the level.
pub open spec fn fall_flag(track: Track, h: HunterSample, v: Violation) -> Seq<Violation> {
    flag_if(
        y_step(track, h) > ILLEGAL_Y_STEP,
        Violation { kind: ViolationKind::IllegalY, measure: y_step(track, h) as u128, ..v },
    )
}

fn check_overlap(
    out: &mut Vec<Violation>,
    count: u32,
    s: &Vec<HunterSample>,
    i: usize,
    v: Violation,
    dt: u32,
) -> (c: u32)
    requires
        i < s@.len(),
    ensures
        c == streak(count, overlaps(s@, i as int), dt, OVERLAP_TICKS).0,
        final(out)@ == old(out)@ + overlap_flag(count, s@, i as int, v, dt),
{
    let near: Option<u128> = find_nearest(s, i);
    assert(sq(OVERLAP_DIST) == 115_600) by (nonlinear_arith);
    let close: bool = match near {
        Some(d) => d < 115_600,
        None => false,
    };
    let (c, flag): (u32, bool) = run_streak(count, close, dt, OVERLAP_TICKS);
    if flag {
        let mut w: Violation = v;
        w.lasted = advance(count, dt);
        w.measure = near.unwrap();
        out.push(w);
    }
    assert(out@ =~= old(out)@ + overlap_flag(count, s@, i as int, v, dt));
    c
}

fn check_stall(
    out: &mut Vec<Violation>,
    count: u32,
    h: HunterSample,
    player: Point,
    v: Violation,
    dt: u32,
) -> (c: u32)
    ensures
        c == streak(count, stares(h, player), dt, STALL_TICKS).0,
        final(out)@ == old(out)@ + stall_flag(count, h, player, v, dt),
{
    let away: u128 = h.pos.flat2(&player);
    assert(sq(STALL_ENGAGE_RANGE) == 144_000_000) by (nonlinear_arith);
    let idle: bool = h.los && away <= 144_000_000 && !h.firing;
    let (c, flag): (u32, bool) = run_streak(count, idle, dt, STALL_TICKS);
    if flag {
        let mut w: Violation = v;
        w.kind = ViolationKind::Stall;
        w.lasted = advance(count, dt);
        w.measure = away;
        out.push(w);
    }
    assert(out@ =~= old(out)@ + stall_flag(count, h, player, v, dt));
    c
}

fn check_thrash(
    out: &mut Vec<Violation>,
    times: &mut Vec<u64>,
    track: Track,
    h: HunterSample,
    v: Violation,
)
    ensures
        final(times)@ == changes(old(times)@, track, h, v.t).0,
        final(out)@ == old(out)@ + thrash_flag(old(times)@, track, h, v),
{
    let changed: bool = match track.prev_state {
        Some(p) => p != h.state,
        None => false,
    };
    if changed {
        times.push(v.t);
        let recent: usize = count_since(times, v.t);
        if recent > THRASH_PER_SEC {
            times.clear();
            let mut w: Violation = v;
            w.kind = ViolationKind::Thrash;
            w.measure = recent as u128;
            out.push(w);
        }
    }
    assert(times@ =~= changes(old(times)@, track, h, v.t).0);
    assert(out@ =~= old(out)@ + thrash_flag(old(times)@, track, h, v));
}

fn check_walk(
    out: &mut Vec<Violation>,
    track: Track,
    s: &Vec<HunterSample>,
    i: usize,
    v: Violation,
    dt: u32,
) -> (c: (u32, Point))
    requires
        i < s@.len(),
    ensures
        c.0 == walked(track, s@[i as int], dt).0,
        c.1 == walked(track, s@[i as int], dt).1,
        final(out)@ == old(out)@ + walk_flag(track, s@, i as int, v, dt),
{
    let h: HunterSample = s[i];
    let mut still: u32 = 0;
    let mut anchor: Point = track.still_anchor;
    if h.speed > WALK_SPEED {
        if track.still == 0 {
            anchor = h.pos;
        }
        still = advance(track.still, dt);
        let travelled: u128 = h.pos.flat2(&anchor);
        assert(sq(WALK_IN_PLACE_DISP) == 90_000) by (nonlinear_arith);
        if travelled >= 90_000 {
            still = 0;
        } else if still >= WALK_IN_PLACE_TICKS {
            let mut w: Violation = v;
            w.kind = ViolationKind::WalkInPlace;
            w.lasted = still;
            still = 0;
            w.measure = travelled;
            w.crowd = count_crowd(s, i);
            out.push(w);
        }
    }
    assert(out@ =~= old(out)@ + walk_flag(track, s@, i as int, v, dt));
    (still, anchor)
}

fn check_fall(out: &mut Vec<Violation>, track: Track, h: HunterSample, v: Violation)
    ensures
        final(out)@ == old(out)@ + fall_flag(track, h, v),
{
    let fall: i64 = match track.prev_pos {
        Some(p) => if h.pos.y >= p.y {
            h.pos.y as i64 - p.y as i64
        } else {
            p.y as i64 - h.pos.y as i64
        },
        None => 0,
    };
    if fall > ILLEGAL_Y_STEP as i64 {
        let mut w: Violation = v;
        w.kind = ViolationKind::IllegalY;
        w.measure = fall as u128;
        out.push(w);
    }
    assert(out@ =~= old(out)@ + fall_flag(track, h, v));
}

proof fn lemma_five_flags(
    seen: Seq<Violation>,
    a: Seq<Violation>,
    b: Seq<Violation>,
    c: Seq<Violation>,
    d: Seq<Violation>,
    e: Seq<Violation>,
)
    ensures
        seen + a + b + c + d + e == seen + (a + b + c + d + e),
{
    assert(seen + a + b + c + d + e =~= seen + (a + b + c + d + e));
}

impl JankMonitor {
    pub open spec fn wf(self) -> bool {
        self.tracks@.len() == self.trans_times@.len()
    }

    /// A watch on `n` hunters that has seen nothing yet.
    pub fn new(n: usize) -> (m: JankMonitor)
        ensures
            m.wf(),
            m.t == 0,
            m.violations@.len() == 0,
            m.tracks@.len() == n,
            forall|i: int|
                0 <= i < n ==> #[trigger] m.tracks@[i] == (Track {
                    prev_state: None,
                    stare: 0,
                    still: 0,
                    still_anchor: Point { x: 0, y: 0, z: 0 },
                    prev_pos: None,
                    packmate_blocks: 0,
                    overlap: 0,
                    ever_fired: false,
                }),
            forall|i: int| 0 <= i < n ==> (#[trigger] m.trans_times@[i])@.len() == 0,
    {
        let mut tracks: Vec<Track> = Vec::new();
        let mut trans_times: Vec<Vec<u64>> = Vec::new();
        let fresh: Track = Track {
            prev_state: None,
            stare: 0,
            still: 0,
            still_anchor: Point { x: 0, y: 0, z: 0 },
            prev_pos: None,
            packmate_blocks: 0,
            overlap: 0,
            ever_fired: false,
        };
        let mut k: usize = 0;
        while k < n
            invariant
                k <= n,
                tracks@.len() == k,
                trans_times@.len() == k,
                forall|i: int| 0 <= i < k ==> #[trigger] tracks@[i] == fresh,
                forall|i: int| 0 <= i < k ==> (#[trigger] trans_times@[i])@.len() == 0,
            decreases n - k,
        {
            tracks.push(fresh);
            trans_times.push(Vec::new());
            k = k + 1;
        }
        JankMonitor { t: 0, tracks, trans_times, violations: Vec::new() }
    }

    /// Looks at one living hunter.
    fn look_at(&mut self, i: usize, s: &Vec<HunterSample>, player: Point, dt: u32)
        requires
            old(self).wf(),
            i < old(self).tracks@.len(),
            i < s@.len(),
            !s@[i as int].dead,
        ensures
            final(self).wf(),
            final(self).t == old(self).t,
            final(self).tracks@ == old(self).tracks@.update(
                i as int,
                noted(old(self).tracks@[i as int], s@, i as int, player, dt),
            ),
            final(self).trans_times@.len() == old(self).trans_times@.len(),
            forall|j: int|
                0 <= j < old(self).trans_times@.len() && j != i ==> #[trigger] final(
                    self).trans_times@[j] == old(self).trans_times@[j],
            final(self).trans_times@[i as int]@ == changes(
                old(self).trans_times@[i as int]@,
                old(self).tracks@[i as int],
                s@[i as int],
                old(self).t,
            ).0,
            final(self).violations@ == old(self).violations@ + flagged(
                old(self).tracks@[i as int],
                old(self).trans_times@[i as int]@,
                s@,
                i as int,
                player,
                old(self).t,
                dt,
            ),
    {
        let h: HunterSample = s[i];
        let before: Track = self.tracks[i];
        let ghost seen = self.violations@;
        let v: Violation = Violation {
            kind: ViolationKind::Overlap,
            enemy: i,
            t: self.t,
            state: h.state,
            at: h.pos,
            from: before.prev_pos,
            speed: h.speed,
            lasted: 0,
            measure: 0,
            crowd: 0,
        };
        let overlap: u32 = check_overlap(&mut self.violations, before.overlap, s, i, v, dt);
        let stare: u32 = check_stall(&mut self.violations, before.stare, h, player, v, dt);
        let mut times: Vec<u64> = Vec::new();
        core::mem::swap(&mut times, &mut self.trans_times[i]);
        check_thrash(&mut self.violations, &mut times, before, h, v);
        self.trans_times.set(i, times);
        let (still, still_anchor): (u32, Point) = check_walk(
            &mut self.violations,
            before,
            s,
            i,
            v,
            dt,
        );
        check_fall(&mut self.violations, before, h, v);
        let blocks: u32 = if h.packmate_block {
            advance(before.packmate_blocks, 1)
        } else {
            before.packmate_blocks
        };
        self.tracks.set(
            i,
            Track {
                prev_state: Some(h.state),
                stare,
                still,
                still_anchor,
                prev_pos: Some(h.pos),
                packmate_blocks: blocks,
                overlap,
                ever_fired: before.ever_fired || h.firing,
            },
        );
        proof {
            lemma_five_flags(
                seen,
                overlap_flag(before.overlap, s@, i as int, v, dt),
                stall_flag(before.stare, h, player, v, dt),
                thrash_flag(old(self).trans_times@[i as int]@, before, h, v),
                walk_flag(before, s@, i as int, v, dt),
                fall_flag(before, h, v),
            );
        }
    }

    /// Looks at every living hunter after a step of length `dt`. Without a player only the
    /// clock runs.
    pub fn sample(&mut self, player: Option<Point>, s: &Vec<HunterSample>, dt: u32)
        requires
            old(self).wf(),
            old(self).t + dt <= u64::MAX,
        ensures
            final(self).wf(),
            final(self).t == old(self).t + dt,
            player is None ==> *final(self) == (JankMonitor {
                t: (old(self).t + dt) as u64,
                ..*old(self)
            }),
            player matches Some(p) ==> {
                let n = watched(*old(self), s@);
                &&& final(self).violations@ == old(self).violations@ + all_flagged(
                    *old(self),
                    s@,
                    p,
                    final(self).t,
                    dt,
                    n,
                )
                &&& final(self).tracks@.len() == old(self).tracks@.len()
                &&& forall|i: int|
                    0 <= i < old(self).tracks@.len() ==> #[trigger] final(self).tracks@[i] == if i
                        < n && !s@[i].dead {
                        noted(old(self).tracks@[i], s@, i, p, dt)
                    } else {
                        old(self).tracks@[i]
                    }
                &&& forall|i: int|
                    0 <= i < old(self).tracks@.len() ==> (#[trigger] final(self).trans_times@[i])@
                        == if i < n && !s@[i].dead {
                        changes(
                            old(self).trans_times@[i]@,
                            old(self).tracks@[i],
                            s@[i],
                            final(self).t,
                        ).0
                    } else {
                        old(self).trans_times@[i]@
                    }
            },
    {
        self.t = self.t + dt as u64;
        let p: Point = match player {
            Some(p) => p,
            None => return,
        };
        let n: usize = if self.tracks.len() < s.len() {
            self.tracks.len()
        } else {
            s.len()
        };
        let mut k: usize = 0;
        assert(self.violations@ =~= old(self).violations@ + all_flagged(
            *old(self),
            s@,
            p,
            self.t,
            dt,
            0,
        ));
        while k < n
            invariant
                k <= n,
                n == watched(*old(self), s@),
                old(self).wf(),
                self.wf(),
                self.t == old(self).t + dt,
                self.tracks@.len() == old(self).tracks@.len(),
                self.violations@ == old(self).violations@ + all_flagged(
                    *old(self),
                    s@,
                    p,
                    self.t,
                    dt,
                    k as nat,
                ),
                forall|i: int|
                    0 <= i < old(self).tracks@.len() ==> #[trigger] self.tracks@[i] == if i < k
                        && !s@[i].dead {
                        noted(old(self).tracks@[i], s@, i, p, dt)
                    } else {
                        old(self).tracks@[i]
                    },
                forall|i: int|
                    0 <= i < old(self).tracks@.len() ==> (#[trigger] self.trans_times@[i])@ == if i
                        < k && !s@[i].dead {
                        changes(
                            old(self).trans_times@[i]@,
                            old(self).tracks@[i],
                            s@[i],
                            self.t,
                        ).0
                    } else {
                        old(self).trans_times@[i]@
                    },
            decreases n - k,
        {
            if !s[k].dead {
                let ghost seen = self.violations@;
                self.look_at(k, s, p, dt);
                assert(self.violations@ =~= old(self).violations@ + all_flagged(
                    *old(self),
                    s@,
                    p,
                    self.t,
                    dt,
                    (k + 1) as nat,
                ));
            }
            k = k + 1;
        }
    }

    /// The defects of one kind.
    pub fn violations_of(&self, kind: ViolationKind) -> (out: Vec<Violation>)
        ensures
            out@ == of_kind(self.violations@, kind, self.violations@.len()),
    {
        let mut out: Vec<Violation> = Vec::new();
        let mut k: usize = 0;
        while k < self.violations.len()
            invariant
                k <= self.violations@.len(),
                out@ == of_kind(self.violations@, kind, k as nat),
            decreases self.violations@.len() - k,
        {
            if self.violations[k].kind == kind {
                out.push(self.violations[k]);
            }
            k = k + 1;
        }
        out
    }
}

/// The defects of one kind among the first `n`.
pub open spec fn of_kind(v: Seq<Violation>, kind: ViolationKind, n: nat) -> Seq<Violation>
    decreases n,
{
    if n == 0 {
        Seq::empty()
    } else {
        let rest = of_kind(v, kind, (n - 1) as nat);
        if v[n - 1].kind == kind {
            rest.push(v[n - 1])
        } else {
            rest
        }
    }
}

/// One flag per streak: a count that has flagged starts from zero, and a count that runs is
/// always short of its limit.
pub proof fn a_streak_flags_once(count: u32, on: bool, dt: u32, limit: u32)
    requires
        limit > 0,
    ensures
        streak(count, on, dt, limit).0 < limit,
        streak(count, on, dt, limit).1 ==> streak(count, on, dt, limit).0 == 0,
        streak(count, on, dt, limit).1 <==> on && count + dt >= limit,
{
}

/// Every defect that is flagged tells whose it is and when, and is as bad as its kind asks: the
/// streak it tells of was long enough, the changes of mind too many, the fall too deep.
pub proof fn a_flag_tells_what_was_wrong(
    track: Track,
    times: Seq<u64>,
    s: Seq<HunterSample>,
    i: int,
    player: Point,
    t: u64,
    dt: u32,
    k: int,
)
    requires
        0 <= i < s.len() <= usize::MAX,
        times.len() < usize::MAX,
        0 <= k < flagged(track, times, s, i, player, t, dt).len(),
    ensures
        ({
            let v = flagged(track, times, s, i, player, t, dt)[k];
            &&& v.enemy == i && v.t == t && v.state == s[i].state && v.at == s[i].pos
            &&& v.from == track.prev_pos && v.speed == s[i].speed
            &&& match v.kind {
                ViolationKind::Overlap => v.lasted >= OVERLAP_TICKS && v.lasted == later(
                    track.overlap,
                    dt,
                ) && overlaps(s, i),
                ViolationKind::Stall => v.lasted >= STALL_TICKS && v.lasted == later(
                    track.stare,
                    dt,
                ) && stares(s[i], player),
                ViolationKind::Thrash => v.lasted == 0 && v.measure > THRASH_PER_SEC,
                ViolationKind::WalkInPlace => v.lasted >= WALK_IN_PLACE_TICKS && v.lasted
                    == later(track.still, dt) && s[i].speed > WALK_SPEED,
                ViolationKind::IllegalY => v.lasted == 0 && v.measure > ILLEGAL_Y_STEP
                    && v.measure == y_step(track, s[i]),
            }
        }),
{
    let h = s[i];
    let v = Violation {
        kind: ViolationKind::Overlap,
        enemy: i as usize,
        t,
        state: h.state,
        at: h.pos,
        from: track.prev_pos,
        speed: h.speed,
        lasted: 0,
        measure: 0,
        crowd: 0,
    };
    let a = overlap_flag(track.overlap, s, i, v, dt);
    let b = stall_flag(track.stare, h, player, v, dt);
    let c = thrash_flag(times, track, h, v);
    let d = walk_flag(track, s, i, v, dt);
    let e = fall_flag(track, h, v);
    let f = flagged(track, times, s, i, player, t, dt);
    lemma_since_bound(times.push(t), t - THRASH_WINDOW, times.len() + 1);
    if k < a.len() {
        assert(f[k] == a[0]);
    } else if k < a.len() + b.len() {
        assert(f[k] == b[0]);
    } else if k < a.len() + b.len() + c.len() {
        assert(f[k] == c[0]);
    } else if k < a.len() + b.len() + c.len() + d.len() {
        assert(f[k] == d[0]);
    } else {
        assert(f[k] == e[0]);
    }
}

/// A hunter that fires is never said to stare, and one that is alone never to overlap.
pub proof fn innocent_hunters_are_not_flagged(
    track: Track,
    s: Seq<HunterSample>,
    i: int,
    player: Point,
    dt: u32,
)
    requires
        0 <= i < s.len(),
    ensures
        s[i].firing ==> noted(track, s, i, player, dt).stare == 0 && !streak(
            track.stare,
            stares(s[i], player),
            dt,
            STALL_TICKS,
        ).1,
        (forall|j: int| !is_packmate(s, i, j)) ==> !overlaps(s, i),
{
    if forall|j: int| !is_packmate(s, i, j) {
        lemma_alone(s, i, s.len());
    }
}

proof fn lemma_since_bound(times: Seq<u64>, from: int, n: nat)
    ensures
        since(times, from, n) <= n,
    decreases n,
{
    if n > 0 {
        lemma_since_bound(times, from, (n - 1) as nat);
    }
}

proof fn lemma_alone(s: Seq<HunterSample>, i: int, n: nat)
    requires
        forall|j: int| !is_packmate(s, i, j),
    ensures
        nearest_packmate(s, i, n) is None,
    decreases n,
{
    if n > 0 {
        lemma_alone(s, i, (n - 1) as nat);
    }
}

/// The nearest packmate is one of the living others, none of them is nearer on the floor plan, and
/// there is none only where nobody else lives.
pub proof fn nobody_is_nearer_than_the_nearest(s: Seq<HunterSample>, i: int, n: nat)
    requires
        n <= s.len(),
    ensures
        nearest_packmate(s, i, n) is None <==> forall|j: int|
            0 <= j < n && j != i ==> (#[trigger] s[j]).dead,
        nearest_packmate(s, i, n) matches Some(d) ==> {
            &&& exists|j: int|
                0 <= j < n && j != i && !(#[trigger] s[j]).dead && s[j].pos.flat2_to(s[i].pos) == d
            &&& forall|j: int|
                0 <= j < n && j != i && !(#[trigger] s[j]).dead ==> d <= s[j].pos.flat2_to(s[i].pos)
        },
    decreases n,
{
    if n > 0 {
        nobody_is_nearer_than_the_nearest(s, i, (n - 1) as nat);
        let last = s[n - 1];
        assert(is_packmate(s, i, n - 1) <==> n - 1 != i && !last.dead);
    }
}

/// A body overlaps another exactly where a living packmate stands less than 0.34 m away on the
/// floor plan.
pub proof fn overlapping_bodies_are_close(s: Seq<HunterSample>, i: int)
    ensures
        overlaps(s, i) <==> exists|j: int|
            0 <= j < s.len() && j != i && !(#[trigger] s[j]).dead && s[j].pos.flat2_to(s[i].pos)
                < 340 * 340,
{
    nobody_is_nearer_than_the_nearest(s, i, s.len());
}

/// The crowd around a hunter is everybody else who lives less than a metre away.
pub proof fn a_crowd_is_counted(s: Seq<HunterSample>, i: int, n: nat)
    requires
        n <= s.len(),
    ensures
        crowd_of(s, i, n) == Seq::new(n, |j: int| j).filter(
            |j: int| j != i && !s[j].dead && s[j].pos.dist2_to(s[i].pos) < 1000 * 1000,
        ).len(),
    decreases n,
{
    reveal(Seq::filter);
    let all = Seq::new(n, |j: int| j);
    if n > 0 {
        a_crowd_is_counted(s, i, (n - 1) as nat);
        assert(all.drop_last() =~= Seq::new((n - 1) as nat, |j: int| j));
        assert(all.last() == n - 1);
    }
}

/// The times at or after an instant are counted, each once.
pub proof fn recent_times_are_counted(times: Seq<u64>, from: int, n: nat)
    requires
        n <= times.len(),
    ensures
        since(times, from, n) == times.take(n as int).filter(|x: u64| x >= from).len(),
    decreases n,
{
    reveal(Seq::filter);
    let t = times.take(n as int);
    if n > 0 {
        recent_times_are_counted(times, from, (n - 1) as nat);
        assert(t.drop_last() =~= times.take(n - 1));
        assert(t.last() == times[n - 1]);
    }
}

/// Whether one of some flags is of a kind.
pub open spec fn flags(v: Seq<Violation>, kind: ViolationKind) -> bool {
    exists|k: int| 0 <= k < v.len() && (#[trigger] v[k]).kind == kind
}

/// Where the hunter's walk began: where it stands if it was not walking before.
pub open spec fn walk_began(track: Track, h: HunterSample) -> Point {
    if track.still == 0 {
        h.pos
    } else {
        track.still_anchor
    }
}

/// Each kind of defect is flagged exactly when it lasted: an overlap a second, a stare at the
/// player in sight within 12 m without a shot three seconds, a walk at more than 0.1 m/s that gets
/// no 0.3 m away a second and a half; a change of mind that makes more than six in a second, and a
/// step up or down of more than a metre, at once.
pub proof fn defects_are_flagged_when_they_last(
    track: Track,
    times: Seq<u64>,
    s: Seq<HunterSample>,
    i: int,
    player: Point,
    t: u64,
    dt: u32,
)
    requires
        0 <= i < s.len() <= usize::MAX,
        times.len() < usize::MAX,
    ensures
        ({
            let f = flagged(track, times, s, i, player, t, dt);
            let h = s[i];
            &&& flags(f, ViolationKind::Overlap) <==> track.overlap + dt >= 1200 && exists|j: int|
                0 <= j < s.len() && j != i && !(#[trigger] s[j]).dead && s[j].pos.flat2_to(h.pos)
                    < 340 * 340
            &&& flags(f, ViolationKind::Stall) <==> track.stare + dt >= 3600 && h.los && !h.firing
                && h.pos.flat2_to(player) <= 12_000 * 12_000
            &&& flags(f, ViolationKind::Thrash) <==> track.prev_state is Some && track.prev_state
                != Some(h.state) && times.push(t).filter(|x: u64| x >= t - 1200).len() > 6
            &&& flags(f, ViolationKind::WalkInPlace) <==> track.still + dt >= 1800 && h.speed > 100
                && h.pos.flat2_to(walk_began(track, h)) < 300 * 300
            &&& flags(f, ViolationKind::IllegalY) <==> (track.prev_pos matches Some(p) && (h.pos.y
                - p.y > 1000 || p.y - h.pos.y > 1000))
        }),
{
    let h = s[i];
    let v = Violation {
        kind: ViolationKind::Overlap,
        enemy: i as usize,
        t,
        state: h.state,
        at: h.pos,
        from: track.prev_pos,
        speed: h.speed,
        lasted: 0,
        measure: 0,
        crowd: 0,
    };
    let a = overlap_flag(track.overlap, s, i, v, dt);
    let b = stall_flag(track.stare, h, player, v, dt);
    let c = thrash_flag(times, track, h, v);
    let d = walk_flag(track, s, i, v, dt);
    let e = fall_flag(track, h, v);
    let f = flagged(track, times, s, i, player, t, dt);
    overlapping_bodies_are_close(s, i);
    changes_of_mind_are_many(times, track, h, t);
    lemma_flags_by_part(a, b, c, d, e);
    assert(f == a + b + c + d + e);
}

/// A change of mind is one too many exactly when it makes more than six in a second.
pub proof fn changes_of_mind_are_many(times: Seq<u64>, track: Track, h: HunterSample, t: u64)
    ensures
        changes(times, track, h, t).1 <==> track.prev_state is Some && track.prev_state != Some(
            h.state,
        ) && times.push(t).filter(|x: u64| x >= t - 1200).len() > 6,
{
    let all = times.push(t);
    assert(all.take(all.len() as int) =~= all);
    recent_times_are_counted(all, t - 1200, all.len());
}

proof fn lemma_flags_by_part(
    a: Seq<Violation>,
    b: Seq<Violation>,
    c: Seq<Violation>,
    d: Seq<Violation>,
    e: Seq<Violation>,
)
    requires
        a.len() <= 1 && (a.len() == 1 ==> a[0].kind == ViolationKind::Overlap),
        b.len() <= 1 && (b.len() == 1 ==> b[0].kind == ViolationKind::Stall),
        c.len() <= 1 && (c.len() == 1 ==> c[0].kind == ViolationKind::Thrash),
        d.len() <= 1 && (d.len() == 1 ==> d[0].kind == ViolationKind::WalkInPlace),
        e.len() <= 1 && (e.len() == 1 ==> e[0].kind == ViolationKind::IllegalY),
    ensures
        flags(a + b + c + d + e, ViolationKind::Overlap) <==> a.len() == 1,
        flags(a + b + c + d + e, ViolationKind::Stall) <==> b.len() == 1,
        flags(a + b + c + d + e, ViolationKind::Thrash) <==> c.len() == 1,
        flags(a + b + c + d + e, ViolationKind::WalkInPlace) <==> d.len() == 1,
        flags(a + b + c + d + e, ViolationKind::IllegalY) <==> e.len() == 1,
{
    let f = a + b + c + d + e;
    if a.len() > 0 {
        assert(f[0] == a[0]);
    }
    if b.len() > 0 {
        assert(f[a.len() as int] == b[0]);
    }
    if c.len() > 0 {
        assert(f[a.len() as int + b.len()] == c[0]);
    }
    if d.len() > 0 {
        assert(f[a.len() as int + b.len() + c.len()] == d[0]);
    }
    if e.len() > 0 {
        assert(f[a.len() as int + b.len() + c.len() + d.len()] == e[0]);
    }
    assert forall|k: int| 0 <= k < f.len() implies match (#[trigger] f[k]).kind {
        ViolationKind::Overlap => a.len() > 0,
        ViolationKind::Stall => b.len() > 0,
        ViolationKind::Thrash => c.len() > 0,
        ViolationKind::WalkInPlace => d.len() > 0,
        ViolationKind::IllegalY => e.len() > 0,
    } by {
        if k < a.len() {
            assert(f[k] == a[k]);
        } else if k < a.len() + b.len() {
            assert(f[k] == b[k - a.len()]);
        } else if k < a.len() + b.len() + c.len() {
            assert(f[k] == c[k - a.len() - b.len()]);
        } else if k < a.len() + b.len() + c.len() + d.len() {
            assert(f[k] == d[k - a.len() - b.len() - c.len()]);
        } else {
            assert(f[k] == e[k - a.len() - b.len() - c.len() - d.len()]);
        }
    }
}

/// What is kept of a hunter goes on with its streaks: a streak that neither ended nor flagged is
/// longer by the step, and any other starts over. Blocks are counted, a shot is never forgotten,
/// and where it was and what it was at are those of this step.
pub proof fn streaks_go_on_until_they_end(
    track: Track,
    s: Seq<HunterSample>,
    i: int,
    player: Point,
    dt: u32,
)
    requires
        0 <= i < s.len(),
        track.overlap + dt <= u32::MAX,
        track.stare + dt <= u32::MAX,
        track.still + dt <= u32::MAX,
        track.packmate_blocks < u32::MAX,
    ensures
        ({
            let b = noted(track, s, i, player, dt);
            let h = s[i];
            let close = exists|j: int|
                0 <= j < s.len() && j != i && !(#[trigger] s[j]).dead && s[j].pos.flat2_to(h.pos)
                    < 340 * 340;
            let idle = h.los && !h.firing && h.pos.flat2_to(player) <= 12_000 * 12_000;
            let stuck = h.speed > 100 && h.pos.flat2_to(walk_began(track, h)) < 300 * 300;
            &&& b.overlap == (if close && track.overlap + dt < 1200 {
                track.overlap + dt
            } else {
                0
            })
            &&& b.stare == (if idle && track.stare + dt < 3600 {
                track.stare + dt
            } else {
                0
            })
            &&& b.still == (if stuck && track.still + dt < 1800 {
                track.still + dt
            } else {
                0
            })
            &&& b.still_anchor == (if h.speed > 100 {
                walk_began(track, h)
            } else {
                track.still_anchor
            })
            &&& b.prev_pos == Some(h.pos) && b.prev_state == Some(h.state)
            &&& b.packmate_blocks == track.packmate_blocks + (if h.packmate_block {
                1int
            } else {
                0
            })
            &&& b.ever_fired == (track.ever_fired || h.firing)
        }),
{
    overlapping_bodies_are_close(s, i);
}

/// Changes of mind are kept while there are at most six in a second; after a flag the count starts
/// over, and a hunter that keeps its mind adds none.
pub proof fn changes_of_mind_are_kept(times: Seq<u64>, track: Track, h: HunterSample, t: u64)
    ensures
        ({
            let out = changes(times, track, h, t).0;
            let changed = track.prev_state is Some && track.prev_state != Some(h.state);
            let many = times.push(t).filter(|x: u64| x >= t - 1200).len() > 6;
            &&& !changed ==> out == times
            &&& changed && !many ==> out == times.push(t)
            &&& changed && many ==> out.len() == 0
        }),
{
    let all = times.push(t);
    assert(all.take(all.len() as int) =~= all);
    recent_times_are_counted(all, t - 1200, all.len());
}

/// Every flag of a living watched hunter is kept, and the dead are not flagged.
pub proof fn the_living_are_watched(
    m: JankMonitor,
    s: Seq<HunterSample>,
    player: Point,
    t: u64,
    dt: u32,
    n: nat,
    v: Violation,
)
    requires
        n <= s.len(),
    ensures
        all_flagged(m, s, player, t, dt, n).contains(v) <==> exists|i: int|
            0 <= i < n && !(#[trigger] s[i]).dead && flagged(
                m.tracks@[i],
                m.trans_times@[i]@,
                s,
                i,
                player,
                t,
                dt,
            ).contains(v),
    decreases n,
{
    if n > 0 {
        the_living_are_watched(m, s, player, t, dt, (n - 1) as nat, v);
        let rest = all_flagged(m, s, player, t, dt, (n - 1) as nat);
        let all = all_flagged(m, s, player, t, dt, n);
        let more = flagged(m.tracks@[n - 1], m.trans_times@[n - 1]@, s, n - 1, player, t, dt);
        if !s[n - 1].dead {
            if rest.contains(v) {
                let k = choose|k: int| 0 <= k < rest.len() && rest[k] == v;
                assert(all[k] == v);
            }
            if more.contains(v) {
                let k = choose|k: int| 0 <= k < more.len() && more[k] == v;
                assert(all[rest.len() as int + k] == v);
            }
            if all.contains(v) {
                let k = choose|k: int| 0 <= k < all.len() && all[k] == v;
                if k < rest.len() {
                    assert(rest[k] == v);
                } else {
                    assert(more[k - rest.len()] == v);
                }
            }
        }
    }
}

/// The flags of a kind are exactly those, in order.
pub proof fn flags_are_picked_by_kind(v: Seq<Violation>, kind: ViolationKind, n: nat)
    requires
        n <= v.len(),
    ensures
        of_kind(v, kind, n) == v.take(n as int).filter(|x: Violation| x.kind == kind).map_values(|x: Violation| x),
    decreases n,
{
    reveal(Seq::filter);
    let t = v.take(n as int);
    if n > 0 {
        flags_are_picked_by_kind(v, kind, (n - 1) as nat);
        assert(t.drop_last() =~= v.take(n - 1));
        assert(t.last() == v[n - 1]);
    } else {
        assert(t =~= Seq::empty());
    }
    assert(of_kind(v, kind, n) =~= t.filter(|x: Violation| x.kind == kind).map_values(|x: Violation| x));
}

} // verus!
