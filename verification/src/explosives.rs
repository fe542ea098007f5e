//! Things that blow up: projectiles in flight, placed mines, and chains of blasts.
use vstd::prelude::*;

use crate::space::Point;
use crate::ticks::{advance, count_down, later, left};

verus! {

/// A projectile that touches nothing for this long is dropped.
pub const PROJECTILE_MAX_LIFE: u32 = 7200;

/// A mine that touches nothing for this long sticks where it is.
pub const MINE_MAX_FLIGHT: u32 = 6000;

/// A blast: how far it reaches, and what it does at its centre.
#[derive(Clone, Copy, PartialEq, Eq, Debug, Structural)]
pub struct Explosion {
    pub radius: u32,
    pub max_damage: u32,
}

/// A blast at a place.
#[derive(Clone, Copy, PartialEq, Eq, Debug, Structural)]
pub struct Detonation {
    pub at: Point,
    pub blast: Explosion,
}

// ---- Projectiles ----

#[derive(Clone, Copy, PartialEq, Eq, Debug, Structural)]
pub struct Projectile {
    pub pos: Point,
    pub age: u32,
    /// Lying still, waiting for its fuse.
    pub at_rest: bool,
    pub fuse: Option<u32>,
    /// Whether it bounces off what it hits while the fuse burns.
    pub bounces: bool,
    pub blast: Explosion,
    /// The model it is drawn with; a round without one shows as a streak.
    pub model: Option<usize>,
}

/// What a projectile hit: the point of contact, where it would lie if it came to rest there,
/// where it goes on from if it bounces, and whether the bounce leaves it slow enough to rest.
#[derive(Clone, Copy, PartialEq, Eq, Debug, Structural)]
pub struct Contact {
    pub point: Point,
    pub rest: Point,
    pub off: Point,
    pub slow: bool,
}

/// The flight of a projectile over one step.
#[derive(Clone, Copy, PartialEq, Eq, Debug, Structural)]
pub struct Sweep {
    pub to: Point,
    pub contact: Option<Contact>,
}

/// What becomes of a projectile in one step.
#[derive(Clone, Copy, PartialEq, Eq, Debug, Structural)]
pub enum Fate {
    Fly(Projectile),
    Explode(Point),
    Drop,
}

impl Projectile {
    pub open spec fn fuse_spent(self) -> bool {
        self.fuse matches Some(f) && self.age >= f
    }

    pub open spec fn moved(self, dt: u32, to: Point) -> Projectile {
        Projectile { pos: to, age: later(self.age, dt), ..self }
    }

    /// At rest it waits for its fuse. In flight a contact bounces it while its fuse burns and
    /// sets it off otherwise; a spent fuse sets it off in the air; and without a contact for
    /// too long it is dropped.
    pub open spec fn fate(self, dt: u32, sweep: Sweep) -> Fate {
        if self.at_rest {
            let p = Projectile { age: later(self.age, dt), ..self };
            if p.fuse_spent() {
                Fate::Explode(p.pos)
            } else {
                Fate::Fly(p)
            }
        } else {
            let p = self.moved(dt, sweep.to);
            match sweep.contact {
                Some(c) => if p.bounces && !p.fuse_spent() {
                    let q = if c.slow {
                        Projectile { at_rest: true, pos: c.rest, ..p }
                    } else {
                        Projectile { pos: c.off, ..p }
                    };
                    if q.age > PROJECTILE_MAX_LIFE {
                        Fate::Drop
                    } else {
                        Fate::Fly(q)
                    }
                } else {
                    Fate::Explode(c.point)
                },
                None => if p.fuse_spent() {
                    Fate::Explode(p.pos)
                } else if p.age > PROJECTILE_MAX_LIFE {
                    Fate::Drop
                } else {
                    Fate::Fly(p)
                },
            }
        }
    }

    fn fuse_expired(&self) -> (b: bool)
        ensures
            b == self.fuse_spent(),
    {
        match self.fuse {
            Some(f) => self.age >= f,
            None => false,
        }
    }

    fn step(&self, dt: u32, sweep: &Sweep) -> (f: Fate)
        ensures
            f == self.fate(dt, *sweep),
    {
        let mut p: Projectile = *self;
        p.age = advance(p.age, dt);
        if p.at_rest {
            return if p.fuse_expired() {
                Fate::Explode(p.pos)
            } else {
                Fate::Fly(p)
            };
        }
        p.pos = sweep.to;
        if let Some(c) = sweep.contact {
            if p.bounces && !p.fuse_expired() {
                if c.slow {
                    p.at_rest = true;
                    p.pos = c.rest;
                } else {
                    p.pos = c.off;
                }
            } else {
                return Fate::Explode(c.point);
            }
        }
        if p.fuse_expired() {
            return Fate::Explode(p.pos);
        }
        if p.age > PROJECTILE_MAX_LIFE {
            return Fate::Drop;
        }
        Fate::Fly(p)
    }
}

/// The projectiles among the first `n` that go on.
pub open spec fn still_flying(ps: Seq<Projectile>, sweeps: Seq<Sweep>, dt: u32, n: nat) -> Seq<
    Projectile,
>
    decreases n,
{
    if n == 0 {
        Seq::empty()
    } else {
        let rest = still_flying(ps, sweeps, dt, (n - 1) as nat);
        match ps[n - 1].fate(dt, sweeps[n - 1]) {
            Fate::Fly(p) => rest.push(p),
            _ => rest,
        }
    }
}

/// The blasts of the first `n` projectiles.
pub open spec fn set_off(ps: Seq<Projectile>, sweeps: Seq<Sweep>, dt: u32, n: nat) -> Seq<
    Detonation,
>
    decreases n,
{
    if n == 0 {
        Seq::empty()
    } else {
        let rest = set_off(ps, sweeps, dt, (n - 1) as nat);
        match ps[n - 1].fate(dt, sweeps[n - 1]) {
            Fate::Explode(at) => rest.push(Detonation { at, blast: ps[n - 1].blast }),
            _ => rest,
        }
    }
}

/// Moves every projectile one step; the result is the blasts that were set off, in order.
pub fn step_projectiles(ps: &mut Vec<Projectile>, sweeps: &Vec<Sweep>, dt: u32) -> (out: Vec<
    Detonation,
>)
    requires
        sweeps@.len() == old(ps)@.len(),
    ensures
        final(ps)@ == still_flying(old(ps)@, sweeps@, dt, old(ps)@.len()),
        out@ == set_off(old(ps)@, sweeps@, dt, old(ps)@.len()),
{
    let mut out: Vec<Detonation> = Vec::new();
    let mut kept: Vec<Projectile> = Vec::new();
    let mut k: usize = 0;
    while k < ps.len()
        invariant
            k <= ps@.len(),
            ps@ == old(ps)@,
            sweeps@.len() == ps@.len(),
            kept@ == still_flying(ps@, sweeps@, dt, k as nat),
            out@ == set_off(ps@, sweeps@, dt, k as nat),
        decreases ps@.len() - k,
    {
        match ps[k].step(dt, &sweeps[k]) {
            Fate::Fly(p) => {
                kept.push(p);
            },
            Fate::Explode(at) => {
                out.push(Detonation { at, blast: ps[k].blast });
            },
            Fate::Drop => {},
        }
        k = k + 1;
    }
    *ps = kept;
    out
}

/// A projectile without a fuse that never touches anything is gone after its life is up, and
/// gone without a blast.
pub proof fn nothing_flies_for_ever(p: Projectile, dt: u32, to: Point)
    requires
        !p.at_rest,
        p.fuse is None,
    ensures
        later(p.age, dt) > PROJECTILE_MAX_LIFE ==> p.fate(dt, Sweep { to, contact: None })
            == Fate::Drop,
        later(p.age, dt) <= PROJECTILE_MAX_LIFE ==> p.fate(dt, Sweep { to, contact: None })
            is Fly,
{
}

/// A round that does not bounce blows up where it touches, and so does any round with a
/// spent fuse.
pub proof fn contact_sets_off_what_cannot_bounce(p: Projectile, dt: u32, to: Point, c: Contact)
    requires
        !p.at_rest,
        !p.bounces || p.moved(dt, to).fuse_spent(),
    ensures
        p.fate(dt, Sweep { to, contact: Some(c) }) == Fate::Explode(c.point),
{
}

// ---- Mines ----

/// What sets a mine off.
#[derive(Clone, Copy, PartialEq, Eq, Debug, Structural)]
pub enum MineTrigger {
    /// The detonator, and nothing else.
    Remote,
    /// Anyone within this range.
    Proximity(u32),
    /// The time that is left once it is armed.
    Timed(u32),
}

#[derive(Clone, Copy, PartialEq, Eq, Debug, Structural)]
pub struct Mine {
    pub pos: Point,
    pub stuck: bool,
    pub flight_time: u32,
    /// Time until it is armed, counted once it is stuck.
    pub arm_left: u32,
    pub trigger: MineTrigger,
    pub blast: Explosion,
    /// The weapon it was thrown with, whose model it is drawn with.
    pub model: usize,
}

/// The flight of a mine over one step: where it goes, and where it sticks if it touches
/// something.
#[derive(Clone, Copy, PartialEq, Eq, Debug, Structural)]
pub struct MineSweep {
    pub to: Point,
    pub sticks_at: Option<Point>,
}

impl Mine {
    /// A mine in flight one step later: stuck where it touched, or where it is when it flew
    /// too long.
    pub open spec fn flown(self, dt: u32, sweep: MineSweep) -> Mine {
        let m = Mine { pos: sweep.to, flight_time: later(self.flight_time, dt), ..self };
        match sweep.sticks_at {
            Some(p) => Mine { pos: p, stuck: true, ..m },
            None => Mine { stuck: m.flight_time > MINE_MAX_FLIGHT, ..m },
        }
    }

    /// A stuck mine one step later: first it arms, then a timed one counts down.
    pub open spec fn ticked(self, dt: u32) -> Mine {
        if self.arm_left > 0 {
            Mine { arm_left: left(self.arm_left, dt), ..self }
        } else {
            Mine {
                trigger: match self.trigger {
                    MineTrigger::Timed(t) => MineTrigger::Timed(left(t, dt)),
                    other => other,
                },
                ..self
            }
        }
    }

    /// Whether an armed mine goes off, with `targets` about.
    pub open spec fn trips(self, targets: Seq<Point>) -> bool {
        self.arm_left == 0 && match self.trigger {
            MineTrigger::Remote => false,
            MineTrigger::Timed(t) => t == 0,
            MineTrigger::Proximity(r) => exists|k: int|
                0 <= k < targets.len() && (#[trigger] targets[k]).within_of(self.pos, r as int),
        }
    }

    pub open spec fn boom(self) -> Detonation {
        Detonation { at: self.pos, blast: self.blast }
    }

    fn fly(&mut self, dt: u32, sweep: &MineSweep)
        ensures
            *final(self) == old(self).flown(dt, *sweep),
    {
        self.pos = sweep.to;
        self.flight_time = advance(self.flight_time, dt);
        match sweep.sticks_at {
            Some(p) => {
                self.pos = p;
                self.stuck = true;
            },
            None => {
                self.stuck = self.flight_time > MINE_MAX_FLIGHT;
            },
        }
    }

    fn tick(&mut self, dt: u32)
        ensures
            *final(self) == old(self).ticked(dt),
    {
        if self.arm_left > 0 {
            self.arm_left = count_down(self.arm_left, dt);
        } else if let MineTrigger::Timed(t) = self.trigger {
            self.trigger = MineTrigger::Timed(count_down(t, dt));
        }
    }

    fn goes_off(&self, targets: &Vec<Point>) -> (b: bool)
        ensures
            b == self.trips(targets@),
    {
        if self.arm_left > 0 {
            return false;
        }
        match self.trigger {
            MineTrigger::Remote => false,
            MineTrigger::Timed(t) => t == 0,
            MineTrigger::Proximity(r) => {
                let mut k: usize = 0;
                while k < targets.len()
                    invariant
                        k <= targets@.len(),
                        self.arm_left == 0,
                        self.trigger == MineTrigger::Proximity(r),
                        forall|j: int|
                            0 <= j < k ==> !(#[trigger] targets@[j]).within_of(self.pos, r as int),
                    decreases targets@.len() - k,
                {
                    if targets[k].within(&self.pos, r) {
                        assert(targets@[k as int].within_of(self.pos, r as int));
                        return true;
                    }
                    k = k + 1;
                }
                false
            },
        }
    }
}

/// What a step makes of a mine, or `None` when it goes off.
pub open spec fn mine_after(m: Mine, sweep: MineSweep, targets: Seq<Point>, dt: u32) -> Option<
    Mine,
> {
    if !m.stuck {
        Some(m.flown(dt, sweep))
    } else if m.ticked(dt).trips(targets) {
        None
    } else {
        Some(m.ticked(dt))
    }
}

/// The mines among the first `n` that stay.
pub open spec fn mines_left(
    ms: Seq<Mine>,
    sweeps: Seq<MineSweep>,
    targets: Seq<Point>,
    dt: u32,
    n: nat,
) -> Seq<Mine>
    decreases n,
{
    if n == 0 {
        Seq::empty()
    } else {
        let rest = mines_left(ms, sweeps, targets, dt, (n - 1) as nat);
        match mine_after(ms[n - 1], sweeps[n - 1], targets, dt) {
            Some(m) => rest.push(m),
            None => rest,
        }
    }
}

/// The blasts of the mines among the first `n` that go off.
pub open spec fn mines_tripped(
    ms: Seq<Mine>,
    sweeps: Seq<MineSweep>,
    targets: Seq<Point>,
    dt: u32,
    n: nat,
) -> Seq<Detonation>
    decreases n,
{
    if n == 0 {
        Seq::empty()
    } else {
        let rest = mines_tripped(ms, sweeps, targets, dt, (n - 1) as nat);
        match mine_after(ms[n - 1], sweeps[n - 1], targets, dt) {
            Some(_) => rest,
            None => rest.push(ms[n - 1].ticked(dt).boom()),
        }
    }
}

/// The sounds of a step: how many mines stuck, and how many timed ones began to count.
#[derive(Clone, Copy, PartialEq, Eq, Debug, Structural)]
pub struct MineCues {
    pub placed: usize,
    pub armed: usize,
}

/// Whether a mine sticks in this step.
pub open spec fn sticks_now(m: Mine, sweep: MineSweep, dt: u32) -> bool {
    !m.stuck && m.flown(dt, sweep).stuck
}

/// Whether a timed mine is armed in this step.
pub open spec fn arms_now(m: Mine, dt: u32) -> bool {
    m.stuck && m.arm_left > 0 && left(m.arm_left, dt) == 0 && m.trigger is Timed
}

pub open spec fn placed_in(ms: Seq<Mine>, sweeps: Seq<MineSweep>, dt: u32, n: nat) -> nat
    decreases n,
{
    if n == 0 {
        0
    } else {
        placed_in(ms, sweeps, dt, (n - 1) as nat) + if sticks_now(ms[n - 1], sweeps[n - 1], dt) {
            1nat
        } else {
            0nat
        }
    }
}

pub open spec fn armed_in(ms: Seq<Mine>, dt: u32, n: nat) -> nat
    decreases n,
{
    if n == 0 {
        0
    } else {
        armed_in(ms, dt, (n - 1) as nat) + if arms_now(ms[n - 1], dt) {
            1nat
        } else {
            0nat
        }
    }
}

/// Moves every mine one step; the result is the blasts of those that went off and the sounds
/// to play.
pub fn mines_step(ms: &mut Vec<Mine>, sweeps: &Vec<MineSweep>, targets: &Vec<Point>, dt: u32) -> (
    out: (Vec<Detonation>, MineCues))
    requires
        sweeps@.len() == old(ms)@.len(),
    ensures
        final(ms)@ == mines_left(old(ms)@, sweeps@, targets@, dt, old(ms)@.len()),
        out.0@ == mines_tripped(old(ms)@, sweeps@, targets@, dt, old(ms)@.len()),
        out.1.placed == placed_in(old(ms)@, sweeps@, dt, old(ms)@.len()),
        out.1.armed == armed_in(old(ms)@, dt, old(ms)@.len()),
{
    let mut out: Vec<Detonation> = Vec::new();
    let mut kept: Vec<Mine> = Vec::new();
    let mut placed: usize = 0;
    let mut armed: usize = 0;
    let mut k: usize = 0;
    while k < ms.len()
        invariant
            k <= ms@.len(),
            ms@ == old(ms)@,
            sweeps@.len() == ms@.len(),
            kept@ == mines_left(ms@, sweeps@, targets@, dt, k as nat),
            out@ == mines_tripped(ms@, sweeps@, targets@, dt, k as nat),
            placed == placed_in(ms@, sweeps@, dt, k as nat),
            armed == armed_in(ms@, dt, k as nat),
            placed <= k,
            armed <= k,
        decreases ms@.len() - k,
    {
        let mut m: Mine = ms[k];
        if !m.stuck {
            m.fly(dt, &sweeps[k]);
            if m.stuck {
                placed = placed + 1;
            }
            kept.push(m);
        } else {
            let unarmed: bool = m.arm_left > 0;
            m.tick(dt);
            let timed: bool = match m.trigger {
                MineTrigger::Timed(_) => true,
                _ => false,
            };
            if unarmed && m.arm_left == 0 && timed {
                armed = armed + 1;
            }
            if m.goes_off(targets) {
                out.push(Detonation { at: m.pos, blast: m.blast });
            } else {
                kept.push(m);
            }
        }
        k = k + 1;
    }
    *ms = kept;
    (out, MineCues { placed, armed })
}

/// A remote mine never goes off by itself.
pub proof fn remote_mines_wait(m: Mine, sweep: MineSweep, targets: Seq<Point>, dt: u32)
    requires
        m.trigger is Remote,
    ensures
        mine_after(m, sweep, targets, dt) is Some,
        mine_after(m, sweep, targets, dt)->0.trigger is Remote,
{
}

// ---- The detonator ----

/// The mines among the first `n` that answer to the detonator, or that do not.
pub open spec fn mines_where(ms: Seq<Mine>, remote: bool, n: nat) -> Seq<Mine>
    decreases n,
{
    if n == 0 {
        Seq::empty()
    } else {
        let rest = mines_where(ms, remote, (n - 1) as nat);
        if (ms[n - 1].trigger is Remote) == remote {
            rest.push(ms[n - 1])
        } else {
            rest
        }
    }
}

pub open spec fn booms(ms: Seq<Mine>) -> Seq<Detonation> {
    ms.map_values(|m: Mine| m.boom())
}

/// Takes every remote mine off the level; the result is their blasts.
pub fn take_remote_mines(ms: &mut Vec<Mine>) -> (out: Vec<Detonation>)
    ensures
        final(ms)@ == mines_where(old(ms)@, false, old(ms)@.len()),
        out@ == booms(mines_where(old(ms)@, true, old(ms)@.len())),
{
    let mut out: Vec<Detonation> = Vec::new();
    let mut kept: Vec<Mine> = Vec::new();
    let mut k: usize = 0;
    assert(out@ =~= booms(mines_where(ms@, true, 0)));
    while k < ms.len()
        invariant
            k <= ms@.len(),
            ms@ == old(ms)@,
            kept@ == mines_where(ms@, false, k as nat),
            out@ == booms(mines_where(ms@, true, k as nat)),
        decreases ms@.len() - k,
    {
        let m: Mine = ms[k];
        let remote: bool = match m.trigger {
            MineTrigger::Remote => true,
            _ => false,
        };
        if remote {
            out.push(Detonation { at: m.pos, blast: m.blast });
        } else {
            kept.push(m);
        }
        k = k + 1;
        assert(out@ =~= booms(mines_where(ms@, true, k as nat)));
    }
    *ms = kept;
    out
}

// ---- Chain reactions ----

/// Whether a blast reaches a mine.
pub open spec fn reaches_mine(d: Detonation, m: Mine) -> bool {
    m.pos.within_of(d.at, d.blast.radius as int)
}

/// The mines among the first `n` that a blast reaches, or that it does not.
pub open spec fn caught(ms: Seq<Mine>, d: Detonation, inside: bool, n: nat) -> Seq<Mine>
    decreases n,
{
    if n == 0 {
        Seq::empty()
    } else {
        let rest = caught(ms, d, inside, (n - 1) as nat);
        if reaches_mine(d, ms[n - 1]) == inside {
            rest.push(ms[n - 1])
        } else {
            rest
        }
    }
}

/// A blast either reaches a mine or does not.
pub proof fn a_blast_splits_the_mines(ms: Seq<Mine>, d: Detonation, n: nat)
    requires
        n <= ms.len(),
    ensures
        caught(ms, d, true, n).len() + caught(ms, d, false, n).len() == n,
    decreases n,
{
    if n > 0 {
        a_blast_splits_the_mines(ms, d, (n - 1) as nat);
    }
}

/// The blasts that go off when the waiting ones do, in order, and the mines that are left:
/// the last one waiting goes first, and the mines that it reaches wait behind the others.
pub open spec fn cascade(waiting: Seq<Detonation>, ms: Seq<Mine>) -> (Seq<Detonation>, Seq<Mine>)
    decreases waiting.len() + ms.len(),
{
    if waiting.len() == 0 {
        (Seq::empty(), ms)
    } else {
        proof {
            a_blast_splits_the_mines(ms, waiting.last(), ms.len());
        }
        let d = waiting.last();
        let (fired, rest) = cascade(
            waiting.drop_last() + booms(caught(ms, d, true, ms.len())),
            caught(ms, d, false, ms.len()),
        );
        (seq![d] + fired, rest)
    }
}

/// Sets off a batch of blasts and every mine that they reach, directly or through one
/// another; the result is every blast, in the order it goes off.
pub fn chain_reaction(initial: Vec<Detonation>, ms: &mut Vec<Mine>) -> (fired: Vec<Detonation>)
    ensures
        fired@ == cascade(initial@, old(ms)@).0,
        final(ms)@ == cascade(initial@, old(ms)@).1,
{
    let mut waiting: Vec<Detonation> = initial;
    let mut fired: Vec<Detonation> = Vec::new();
    while waiting.len() > 0
        invariant
            cascade(initial@, old(ms)@) == (
                fired@ + cascade(waiting@, ms@).0,
                cascade(waiting@, ms@).1,
            ),
        decreases waiting@.len() + ms@.len(),
    {
        let ghost w0 = waiting@;
        let ghost m0 = ms@;
        let ghost f0 = fired@;
        let d: Detonation = waiting.pop().unwrap();
        proof {
            a_blast_splits_the_mines(m0, d, m0.len());
        }
        let mut kept: Vec<Mine> = Vec::new();
        let mut k: usize = 0;
        assert(waiting@ =~= w0.drop_last() + booms(caught(m0, d, true, 0)));
        while k < ms.len()
            invariant
                k <= ms@.len(),
                ms@ == m0,
                kept@ == caught(m0, d, false, k as nat),
                waiting@ == w0.drop_last() + booms(caught(m0, d, true, k as nat)),
            decreases ms@.len() - k,
        {
            let m: Mine = ms[k];
            if m.pos.within(&d.at, d.blast.radius) {
                waiting.push(Detonation { at: m.pos, blast: m.blast });
            } else {
                kept.push(m);
            }
            k = k + 1;
            assert(waiting@ =~= w0.drop_last() + booms(caught(m0, d, true, k as nat)));
        }
        *ms = kept;
        fired.push(d);
        proof {
            assert(waiting@.len() == w0.len() - 1 + caught(m0, d, true, m0.len()).len());
            assert(w0.last() == d);
            assert(f0 + (seq![d] + cascade(waiting@, ms@).0) =~= fired@ + cascade(
                waiting@,
                ms@,
            ).0);
        }
    }
    assert(fired@ + Seq::<Detonation>::empty() =~= fired@);
    fired
}

proof fn lemma_caught_is_right(ms: Seq<Mine>, d: Detonation, inside: bool, n: nat)
    requires
        n <= ms.len(),
    ensures
        forall|k: int|
            0 <= k < caught(ms, d, inside, n).len() ==> reaches_mine(
                d,
                #[trigger] caught(ms, d, inside, n)[k],
            ) == inside && ms.contains(caught(ms, d, inside, n)[k]),
    decreases n,
{
    if n > 0 {
        lemma_caught_is_right(ms, d, inside, (n - 1) as nat);
        let rest = caught(ms, d, inside, (n - 1) as nat);
        let all = caught(ms, d, inside, n);
        assert(ms.contains(ms[n - 1]));
        assert forall|k: int| 0 <= k < all.len() implies reaches_mine(d, #[trigger] all[k]) == inside
            && ms.contains(all[k]) by {
            if k < rest.len() {
                assert(all[k] == rest[k]);
            }
        }
    }
}

proof fn lemma_cascade_leaves_old_mines(waiting: Seq<Detonation>, ms: Seq<Mine>)
    ensures
        forall|k: int|
            0 <= k < cascade(waiting, ms).1.len() ==> ms.contains(
                #[trigger] cascade(waiting, ms).1[k],
            ),
    decreases waiting.len() + ms.len(),
{
    if waiting.len() > 0 {
        let d = waiting.last();
        a_blast_splits_the_mines(ms, d, ms.len());
        lemma_caught_is_right(ms, d, false, ms.len());
        let out = caught(ms, d, false, ms.len());
        let next = waiting.drop_last() + booms(caught(ms, d, true, ms.len()));
        lemma_cascade_leaves_old_mines(next, out);
        assert forall|k: int| 0 <= k < cascade(waiting, ms).1.len() implies ms.contains(
            #[trigger] cascade(waiting, ms).1[k],
        ) by {
            let m = cascade(next, out).1[k];
            assert(out.contains(m));
            let j = choose|j: int| 0 <= j < out.len() && out[j] == m;
            assert(ms.contains(out[j]));
        }
    }
}

/// A cluster goes up together: after a chain reaction no mine is left within reach of any of
/// its blasts.
pub proof fn a_chain_reaction_spares_nothing_in_reach(waiting: Seq<Detonation>, ms: Seq<Mine>)
    ensures
        forall|i: int, j: int|
            0 <= i < cascade(waiting, ms).0.len() && 0 <= j < cascade(waiting, ms).1.len()
                ==> !reaches_mine(
                #[trigger] cascade(waiting, ms).0[i],
                #[trigger] cascade(waiting, ms).1[j],
            ),
    decreases waiting.len() + ms.len(),
{
    if waiting.len() > 0 {
        let d = waiting.last();
        a_blast_splits_the_mines(ms, d, ms.len());
        lemma_caught_is_right(ms, d, false, ms.len());
        let out = caught(ms, d, false, ms.len());
        let next = waiting.drop_last() + booms(caught(ms, d, true, ms.len()));
        a_chain_reaction_spares_nothing_in_reach(next, out);
        lemma_cascade_leaves_old_mines(next, out);
        let (fired, rest) = cascade(next, out);
        assert forall|i: int, j: int|
            0 <= i < (seq![d] + fired).len() && 0 <= j < rest.len() implies !reaches_mine(
            #[trigger] (seq![d] + fired)[i],
            #[trigger] rest[j],
        ) by {
            if i == 0 {
                assert(out.contains(rest[j]));
                let k = choose|k: int| 0 <= k < out.len() && out[k] == rest[j];
                assert(reaches_mine(d, out[k]) == false);
            } else {
                assert((seq![d] + fired)[i] == fired[i - 1]);
            }
        }
    }
}

/// Nothing goes off twice and nothing is lost: every waiting blast goes off, and every mine
/// either goes off or is left.
pub proof fn a_chain_reaction_counts_up(waiting: Seq<Detonation>, ms: Seq<Mine>)
    ensures
        cascade(waiting, ms).0.len() + cascade(waiting, ms).1.len() == waiting.len() + ms.len(),
    decreases waiting.len() + ms.len(),
{
    if waiting.len() > 0 {
        let d = waiting.last();
        a_blast_splits_the_mines(ms, d, ms.len());
        let out = caught(ms, d, false, ms.len());
        let next = waiting.drop_last() + booms(caught(ms, d, true, ms.len()));
        a_chain_reaction_counts_up(next, out);
    }
}

/// How many puffs a blast is drawn with: more for a larger one, between three and six.
pub open spec fn puffs_of(radius: u32) -> int {
    if radius / 2000 >= 3 {
        6
    } else {
        3 + radius as int / 2000
    }
}

/// How many fractions the puffs of a blast are drawn from: one for the core, and six for each of
/// the others.
pub open spec fn puff_draws(radius: u32) -> nat {
    (1 + 6 * (puffs_of(radius) - 1)) as nat
}

pub fn blast_puffs(radius: u32) -> (n: u32)
    ensures
        n == puffs_of(radius),
{
    let extra: u32 = radius / 2000;
    if extra >= 3 {
        6
    } else {
        3 + extra
    }
}

/// The rounds that fly on are kept, in order, as their flight leaves them; the others are gone.
pub proof fn rounds_that_fly_on_are_kept(ps: Seq<Projectile>, sweeps: Seq<Sweep>, dt: u32, n: nat)
    requires
        n <= ps.len(),
        sweeps.len() == ps.len(),
    ensures
        still_flying(ps, sweeps, dt, n) == Seq::new(ps.len(), |i: int| (ps[i], sweeps[i])).take(n as int).filter(|e: (Projectile, Sweep)| e.0.fate(dt, e.1) is Fly).map_values(|e: (Projectile, Sweep)| e.0.fate(dt, e.1)->Fly_0),
    decreases n,
{
    reveal(Seq::filter);
    let both = Seq::new(ps.len(), |i: int| (ps[i], sweeps[i]));
    let t = both.take(n as int);
    if n > 0 {
        rounds_that_fly_on_are_kept(ps, sweeps, dt, (n - 1) as nat);
        assert(t.drop_last() =~= both.take(n - 1));
        assert(t.last() == both[n - 1]);
    } else {
        assert(t =~= Seq::empty());
    }
    assert(still_flying(ps, sweeps, dt, n) =~= t.filter(|e: (Projectile, Sweep)| e.0.fate(dt, e.1) is Fly).map_values(|e: (Projectile, Sweep)| e.0.fate(dt, e.1)->Fly_0));
}

/// Every round that explodes is a blast of its own kind, in order, and nothing else is.
pub proof fn every_round_that_explodes_is_a_blast(ps: Seq<Projectile>, sweeps: Seq<Sweep>, dt: u32, n: nat)
    requires
        n <= ps.len(),
        sweeps.len() == ps.len(),
    ensures
        set_off(ps, sweeps, dt, n) == Seq::new(ps.len(), |i: int| (ps[i], sweeps[i])).take(n as int).filter(|e: (Projectile, Sweep)| e.0.fate(dt, e.1) is Explode).map_values(|e: (Projectile, Sweep)| Detonation { at: e.0.fate(dt, e.1)->Explode_0, blast: e.0.blast }),
    decreases n,
{
    reveal(Seq::filter);
    let both = Seq::new(ps.len(), |i: int| (ps[i], sweeps[i]));
    let t = both.take(n as int);
    if n > 0 {
        every_round_that_explodes_is_a_blast(ps, sweeps, dt, (n - 1) as nat);
        assert(t.drop_last() =~= both.take(n - 1));
        assert(t.last() == both[n - 1]);
    } else {
        assert(t =~= Seq::empty());
    }
    assert(set_off(ps, sweeps, dt, n) =~= t.filter(|e: (Projectile, Sweep)| e.0.fate(dt, e.1) is Explode).map_values(|e: (Projectile, Sweep)| Detonation { at: e.0.fate(dt, e.1)->Explode_0, blast: e.0.blast }));
}

/// A round at rest stays where it lies until its fuse has burnt, and then explodes there.
pub proof fn a_round_at_rest_waits_for_its_fuse(p: Projectile, dt: u32, sweep: Sweep)
    requires
        p.at_rest,
        p.age + dt <= u32::MAX,
    ensures
        p.fate(dt, sweep) == (match p.fuse {
            Some(f) => if p.age + dt >= f {
                Fate::Explode(p.pos)
            } else {
                Fate::Fly(Projectile { age: (p.age + dt) as u32, ..p })
            },
            None => Fate::Fly(Projectile { age: (p.age + dt) as u32, ..p }),
        }),
{
}

/// A round in the air that touches nothing goes where its flight leads; it explodes there once
/// its fuse has burnt, and is dropped after six seconds.
pub proof fn a_round_in_the_air_flies_on(p: Projectile, dt: u32, sweep: Sweep)
    requires
        !p.at_rest,
        p.age + dt <= u32::MAX,
        sweep.contact is None,
    ensures
        (p.fuse matches Some(f) && p.age + dt >= f) ==> p.fate(dt, sweep) == Fate::Explode(sweep.to),
        !(p.fuse matches Some(f) && p.age + dt >= f) && p.age + dt > 7200 ==> p.fate(dt, sweep)
            == Fate::Drop,
        !(p.fuse matches Some(f) && p.age + dt >= f) && p.age + dt <= 7200 ==> p.fate(dt, sweep)
            == Fate::Fly(Projectile { pos: sweep.to, age: (p.age + dt) as u32, ..p }),
{
}

/// A round that touches something explodes at the point of contact, unless it bounces and its
/// fuse still burns: then it comes to rest where it is slow and flies on off the surface where it
/// is not, or is dropped after six seconds.
pub proof fn a_round_that_touches_explodes_or_bounces(
    p: Projectile,
    dt: u32,
    sweep: Sweep,
    c: Contact,
)
    requires
        !p.at_rest,
        p.age + dt <= u32::MAX,
        sweep.contact == Some(c),
    ensures
        !p.bounces || (p.fuse matches Some(f) && p.age + dt >= f) ==> p.fate(dt, sweep)
            == Fate::Explode(c.point),
        p.bounces && !(p.fuse matches Some(f) && p.age + dt >= f) ==> p.fate(dt, sweep) == (if p.age
            + dt > 7200 {
            Fate::Drop
        } else {
            Fate::Fly(
                Projectile {
                    pos: if c.slow {
                        c.rest
                    } else {
                        c.off
                    },
                    at_rest: c.slow,
                    age: (p.age + dt) as u32,
                    ..p
                },
            )
        }),
{
}

/// A mine in the air sticks where it touches, or where it is after five seconds, and keeps
/// everything else; in the air it neither arms nor goes off.
pub proof fn a_mine_in_the_air_sticks(m: Mine, dt: u32, sweep: MineSweep, targets: Seq<Point>)
    requires
        !m.stuck,
        m.flight_time + dt <= u32::MAX,
    ensures
        mine_after(m, sweep, targets, dt) == Some(
            Mine {
                pos: match sweep.sticks_at {
                    Some(p) => p,
                    None => sweep.to,
                },
                stuck: sweep.sticks_at is Some || m.flight_time + dt > 6000,
                flight_time: (m.flight_time + dt) as u32,
                ..m
            },
        ),
{
}

/// A stuck mine arms first, and goes off in the step that arms it only as one that was armed
/// would. Armed, a proximity mine goes off exactly when a target is within its range, a timed one
/// when its time is up, and a remote one never by itself.
pub proof fn a_stuck_mine_goes_off_when_it_should(
    m: Mine,
    dt: u32,
    sweep: MineSweep,
    targets: Seq<Point>,
)
    requires
        m.stuck,
    ensures
        m.arm_left > dt ==> mine_after(m, sweep, targets, dt) == Some(
            Mine { arm_left: (m.arm_left - dt) as u32, ..m },
        ),
        m.arm_left <= dt ==> match m.trigger {
            MineTrigger::Remote => mine_after(m, sweep, targets, dt) == Some(
                Mine { arm_left: 0, ..m },
            ),
            MineTrigger::Proximity(r) => if exists|k: int|
                0 <= k < targets.len() && (#[trigger] targets[k]).dist2_to(m.pos) <= r * r {
                mine_after(m, sweep, targets, dt) is None
            } else {
                mine_after(m, sweep, targets, dt) == Some(Mine { arm_left: 0, ..m })
            },
            MineTrigger::Timed(t) => {
                let rest = if m.arm_left > 0 || t > dt {
                    t - if m.arm_left > 0 {
                        0
                    } else {
                        dt as int
                    }
                } else {
                    0
                };
                if rest == 0 {
                    mine_after(m, sweep, targets, dt) is None
                } else {
                    mine_after(m, sweep, targets, dt) == Some(
                        Mine { arm_left: 0, trigger: MineTrigger::Timed(rest as u32), ..m },
                    )
                }
            },
        },
{
    if let MineTrigger::Proximity(r) = m.trigger {
        let after = m.ticked(dt);
        assert forall|k: int| 0 <= k < targets.len() implies ((#[trigger] targets[k]).within_of(
            after.pos,
            r as int,
        ) <==> targets[k].dist2_to(m.pos) <= r * r) by {
            crate::space::ranges_are_distances(targets[k], m.pos, r);
        }
    }
}
/// The mines that do not go off are kept, in order, as the step leaves them.
pub proof fn mines_that_stay_are_kept(ms: Seq<Mine>, sweeps: Seq<MineSweep>, targets: Seq<Point>, dt: u32, n: nat)
    requires
        n <= ms.len(),
        sweeps.len() == ms.len(),
    ensures
        mines_left(ms, sweeps, targets, dt, n) == Seq::new(ms.len(), |i: int| (ms[i], sweeps[i])).take(n as int).filter(|e: (Mine, MineSweep)| mine_after(e.0, e.1, targets, dt) is Some).map_values(|e: (Mine, MineSweep)| mine_after(e.0, e.1, targets, dt)->0),
    decreases n,
{
    reveal(Seq::filter);
    let both = Seq::new(ms.len(), |i: int| (ms[i], sweeps[i]));
    let t = both.take(n as int);
    if n > 0 {
        mines_that_stay_are_kept(ms, sweeps, targets, dt, (n - 1) as nat);
        assert(t.drop_last() =~= both.take(n - 1));
        assert(t.last() == both[n - 1]);
    } else {
        assert(t =~= Seq::empty());
    }
    assert(mines_left(ms, sweeps, targets, dt, n) =~= t.filter(|e: (Mine, MineSweep)| mine_after(e.0, e.1, targets, dt) is Some).map_values(|e: (Mine, MineSweep)| mine_after(e.0, e.1, targets, dt)->0));
}

/// Every mine that goes off is a blast where it lies, in order, and nothing else is.
pub proof fn mines_that_go_off_are_blasts(ms: Seq<Mine>, sweeps: Seq<MineSweep>, targets: Seq<Point>, dt: u32, n: nat)
    requires
        n <= ms.len(),
        sweeps.len() == ms.len(),
    ensures
        mines_tripped(ms, sweeps, targets, dt, n) == Seq::new(ms.len(), |i: int| (ms[i], sweeps[i])).take(n as int).filter(|e: (Mine, MineSweep)| mine_after(e.0, e.1, targets, dt) is None).map_values(|e: (Mine, MineSweep)| Detonation { at: e.0.pos, blast: e.0.blast }),
    decreases n,
{
    reveal(Seq::filter);
    let both = Seq::new(ms.len(), |i: int| (ms[i], sweeps[i]));
    let t = both.take(n as int);
    if n > 0 {
        mines_that_go_off_are_blasts(ms, sweeps, targets, dt, (n - 1) as nat);
        assert(t.drop_last() =~= both.take(n - 1));
        assert(t.last() == both[n - 1]);
    } else {
        assert(t =~= Seq::empty());
    }
    assert(mines_tripped(ms, sweeps, targets, dt, n) =~= t.filter(|e: (Mine, MineSweep)| mine_after(e.0, e.1, targets, dt) is None).map_values(|e: (Mine, MineSweep)| Detonation { at: e.0.pos, blast: e.0.blast }));
}

/// The detonator takes the remote mines, in order, and leaves the others.
pub proof fn the_detonator_answers_remote_mines_only(ms: Seq<Mine>, remote: bool, n: nat)
    requires
        n <= ms.len(),
    ensures
        mines_where(ms, remote, n) == ms.take(n as int).filter(|m: Mine| (m.trigger is Remote) == remote).map_values(|m: Mine| m),
    decreases n,
{
    reveal(Seq::filter);
    let t = ms.take(n as int);
    if n > 0 {
        the_detonator_answers_remote_mines_only(ms, remote, (n - 1) as nat);
        assert(t.drop_last() =~= ms.take(n - 1));
        assert(t.last() == ms[n - 1]);
    } else {
        assert(t =~= Seq::empty());
    }
    assert(mines_where(ms, remote, n) =~= t.filter(|m: Mine| (m.trigger is Remote) == remote).map_values(|m: Mine| m));
}

/// A blast reaches the mines that lie within its radius, in order, and leaves the others.
pub proof fn a_blast_reaches_the_mines_in_its_radius(ms: Seq<Mine>, d: Detonation, inside: bool, n: nat)
    requires
        n <= ms.len(),
    ensures
        caught(ms, d, inside, n) == ms.take(n as int).filter(|m: Mine| (m.pos.dist2_to(d.at) <= d.blast.radius * d.blast.radius) == inside).map_values(|m: Mine| m),
    decreases n,
{
    reveal(Seq::filter);
    let t = ms.take(n as int);
    if n > 0 {
        a_blast_reaches_the_mines_in_its_radius(ms, d, inside, (n - 1) as nat);
        assert(t.drop_last() =~= ms.take(n - 1));
        assert(t.last() == ms[n - 1]);
    } else {
        assert(t =~= Seq::empty());
    }
    assert(caught(ms, d, inside, n) =~= t.filter(|m: Mine| (m.pos.dist2_to(d.at) <= d.blast.radius * d.blast.radius) == inside).map_values(|m: Mine| m));
}

/// Every mine that comes to stick is counted once, and so is every timed mine that comes to be
/// armed.
pub proof fn cues_are_counted(ms: Seq<Mine>, sweeps: Seq<MineSweep>, dt: u32, n: nat)
    requires
        n <= ms.len(),
        sweeps.len() == ms.len(),
    ensures
        placed_in(ms, sweeps, dt, n) == Seq::new(ms.len(), |i: int| (ms[i], sweeps[i])).take(
            n as int,
        ).filter(|e: (Mine, MineSweep)| !e.0.stuck && e.0.flown(dt, e.1).stuck).len(),
        armed_in(ms, dt, n) == ms.take(n as int).filter(
            |m: Mine| m.stuck && 0 < m.arm_left <= dt && m.trigger is Timed,
        ).len(),
    decreases n,
{
    reveal(Seq::filter);
    let both = Seq::new(ms.len(), |i: int| (ms[i], sweeps[i]));
    let t = both.take(n as int);
    let u = ms.take(n as int);
    if n > 0 {
        cues_are_counted(ms, sweeps, dt, (n - 1) as nat);
        assert(t.drop_last() =~= both.take(n - 1));
        assert(t.last() == both[n - 1]);
        assert(u.drop_last() =~= ms.take(n - 1));
        assert(u.last() == ms[n - 1]);
    }
}

/// Every blast that waits goes off, and every mine either goes off where it lies, with its own
/// blast, or is left as it was: nothing is lost, changed or doubled.
pub proof fn a_chain_reaction_loses_nothing(waiting: Seq<Detonation>, ms: Seq<Mine>)
    ensures
        cascade(waiting, ms).0.to_multiset().add(blasts_of(cascade(waiting, ms).1).to_multiset())
            =~= waiting.to_multiset().add(blasts_of(ms).to_multiset()),
    decreases waiting.len() + ms.len(),
{
    broadcast use vstd::seq_lib::group_to_multiset_ensures;

    if waiting.len() > 0 {
        let d = waiting.last();
        a_blast_splits_the_mines(ms, d, ms.len());
        let hit = caught(ms, d, true, ms.len());
        let out = caught(ms, d, false, ms.len());
        let next = waiting.drop_last() + booms(hit);
        a_chain_reaction_loses_nothing(next, out);
        lemma_split(ms, d, ms.len());
        assert(ms.take(ms.len() as int) =~= ms);
        let (fired, rest) = cascade(next, out);
        assert(booms(hit) =~= blasts_of(hit));
        vstd::seq_lib::lemma_multiset_commutative(waiting.drop_last(), booms(hit));
        vstd::seq_lib::lemma_multiset_commutative(seq![d], fired);
        assert(waiting =~= waiting.drop_last().push(d));
        assert(seq![d] =~= Seq::<Detonation>::empty().push(d));
        let one = seq![d].to_multiset();
        assert(one =~= vstd::multiset::Multiset::singleton(d)) by {
            assert(Seq::<Detonation>::empty().to_multiset() =~= vstd::multiset::Multiset::empty());
        }
        assert(cascade(waiting, ms).0 == seq![d] + fired);
        assert(cascade(waiting, ms).1 == rest);
        let (a, b) = (fired.to_multiset(), blasts_of(rest).to_multiset());
        let (w, h) = (waiting.drop_last().to_multiset(), blasts_of(hit).to_multiset());
        let o = blasts_of(out).to_multiset();
        assert((seq![d] + fired).to_multiset() =~= one.add(a));
        assert(next.to_multiset() =~= w.add(h));
        assert(a.add(b) =~= w.add(h).add(o));
        assert(h.add(o) =~= blasts_of(ms).to_multiset());
        assert(waiting.to_multiset() =~= w.insert(d));
        assert(one.add(a).add(b) =~= one.add(a.add(b)));
        assert(w.add(h).add(o) =~= w.add(h.add(o)));
        assert(one.add(w.add(h.add(o))) =~= w.insert(d).add(h.add(o)));
    } else {
        assert(cascade(waiting, ms).0 =~= waiting);
    }
}

/// The blasts that mines would be, each where it lies.
pub open spec fn blasts_of(ms: Seq<Mine>) -> Seq<Detonation> {
    ms.map_values(|m: Mine| Detonation { at: m.pos, blast: m.blast })
}

proof fn lemma_split(ms: Seq<Mine>, d: Detonation, n: nat)
    requires
        n <= ms.len(),
    ensures
        blasts_of(caught(ms, d, true, n)).to_multiset().add(
            blasts_of(caught(ms, d, false, n)).to_multiset(),
        ) =~= blasts_of(ms.take(n as int)).to_multiset(),
    decreases n,
{
    broadcast use vstd::seq_lib::group_to_multiset_ensures;

    if n > 0 {
        let p = (n - 1) as nat;
        lemma_split(ms, d, p);
        let m = ms[n - 1];
        let b = Detonation { at: m.pos, blast: m.blast };
        assert(blasts_of(ms.take(n as int)) =~= blasts_of(ms.take(p as int)).push(b));
        let inside = reaches_mine(d, m);
        assert(blasts_of(caught(ms, d, inside, n)) =~= blasts_of(caught(ms, d, inside, p)).push(b));
        assert(caught(ms, d, !inside, n) =~= caught(ms, d, !inside, p));
    } else {
        assert(blasts_of(caught(ms, d, true, n)) =~= Seq::empty());
        assert(blasts_of(caught(ms, d, false, n)) =~= Seq::empty());
        assert(blasts_of(ms.take(n as int)) =~= Seq::empty());
    }
}

/// A mine that no blast of a chain reaction reaches is left, and a mine that one reaches is not.
pub proof fn a_chain_reaction_takes_what_it_reaches(waiting: Seq<Detonation>, ms: Seq<Mine>, m: Mine)
    requires
        ms.contains(m),
    ensures
        (forall|i: int|
            0 <= i < cascade(waiting, ms).0.len() ==> m.pos.dist2_to(
                (#[trigger] cascade(waiting, ms).0[i]).at,
            ) > cascade(waiting, ms).0[i].blast.radius * cascade(waiting, ms).0[i].blast.radius)
            ==> cascade(waiting, ms).1.contains(m),
        (exists|i: int|
            0 <= i < cascade(waiting, ms).0.len() && m.pos.dist2_to(
                (#[trigger] cascade(waiting, ms).0[i]).at,
            ) <= cascade(waiting, ms).0[i].blast.radius * cascade(waiting, ms).0[i].blast.radius)
            ==> !cascade(waiting, ms).1.contains(m),
    decreases waiting.len() + ms.len(),
{
    let all = cascade(waiting, ms);
    if exists|i: int|
        0 <= i < all.0.len() && m.pos.dist2_to((#[trigger] all.0[i]).at) <= all.0[i].blast.radius
            * all.0[i].blast.radius {
        a_chain_reaction_spares_nothing_in_reach(waiting, ms);
        let i = choose|i: int|
            0 <= i < all.0.len() && m.pos.dist2_to((#[trigger] all.0[i]).at) <= all.0[i].blast.radius
                * all.0[i].blast.radius;
        if all.1.contains(m) {
            let j = choose|j: int| 0 <= j < all.1.len() && all.1[j] == m;
            assert(!reaches_mine(all.0[i], all.1[j]));
        }
    } else if waiting.len() > 0 {
        let d = waiting.last();
        a_blast_splits_the_mines(ms, d, ms.len());
        let out = caught(ms, d, false, ms.len());
        let next = waiting.drop_last() + booms(caught(ms, d, true, ms.len()));
        let (fired, rest) = cascade(next, out);
        assert(all.0[0] == d);
        assert(ms.take(ms.len() as int) =~= ms);
        lemma_missed(ms, d, m, ms.len());
        assert(out.contains(m));
        assert forall|i: int| 0 <= i < fired.len() implies m.pos.dist2_to((#[trigger] fired[i]).at)
            > fired[i].blast.radius * fired[i].blast.radius by {
            assert(all.0[i + 1] == fired[i]);
        }
        a_chain_reaction_takes_what_it_reaches(next, out, m);
    }
}

proof fn lemma_missed(ms: Seq<Mine>, d: Detonation, m: Mine, n: nat)
    requires
        n <= ms.len(),
        ms.take(n as int).contains(m),
        !reaches_mine(d, m),
    ensures
        caught(ms, d, false, n).contains(m),
    decreases n,
{
    if n > 0 {
        let rest = caught(ms, d, false, (n - 1) as nat);
        let all = caught(ms, d, false, n);
        if ms[n - 1] == m {
            assert(all[rest.len() as int] == m);
        } else {
            let k = choose|k: int| 0 <= k < n && ms.take(n as int)[k] == m;
            assert(ms.take(n - 1)[k] == m);
            lemma_missed(ms, d, m, (n - 1) as nat);
            let j = choose|j: int| 0 <= j < rest.len() && rest[j] == m;
            assert(all[j] == m);
        }
    }
}

/// Every blast that waits goes off.
pub proof fn what_waits_goes_off(waiting: Seq<Detonation>, ms: Seq<Mine>, d: Detonation)
    requires
        waiting.contains(d),
    ensures
        cascade(waiting, ms).0.contains(d),
    decreases waiting.len() + ms.len(),
{
    let last = waiting.last();
    a_blast_splits_the_mines(ms, last, ms.len());
    let out = caught(ms, last, false, ms.len());
    let next = waiting.drop_last() + booms(caught(ms, last, true, ms.len()));
    let (fired, rest) = cascade(next, out);
    let all = cascade(waiting, ms).0;
    let k = choose|k: int| 0 <= k < waiting.len() && waiting[k] == d;
    if k == waiting.len() - 1 {
        assert(all[0] == d);
    } else {
        assert(next[k] == d);
        what_waits_goes_off(next, out, d);
        let j = choose|j: int| 0 <= j < fired.len() && fired[j] == d;
        assert(all[j + 1] == d);
    }
}

/// A blast is drawn with one puff more for every two metres of its radius, from three to six, and
/// each puff but the first takes six fractions.
pub proof fn larger_blasts_have_more_puffs(radius: u32)
    ensures
        3 <= puffs_of(radius) <= 6,
        radius < 6000 ==> 2000 * (puffs_of(radius) - 3) <= radius < 2000 * (puffs_of(radius) - 2),
        radius >= 6000 ==> puffs_of(radius) == 6,
        puff_draws(radius) == 6 * puffs_of(radius) - 5,
{
}

} // verus!
