//! From one baked grid to the findings and the coloured overlay.
use vstd::prelude::*;

use crate::nav_issues::{
    shown, LineView, NavClimb, NavGap, NavIsland, NavIssues, NavLine, NavMetrics, NavOrphan,
    NavPinch, NavSeverity, OrphanView, CLUSTER, REPRESENTATIVES,
};
use crate::space::{floor_div, Point};
use crate::text::{nat_text, push_nat, round_half_even, rounded};

verus! {

/// A spawn pad with the component under it, as authored and after it is snapped to the
/// nearest standable cell.
#[derive(Clone, Copy, PartialEq, Eq, Debug, Structural)]
pub struct PadProbe {
    pub pos: Point,
    pub comp: Option<u32>,
    pub snapped: Point,
    pub snapped_comp: Option<u32>,
}

/// An authored object with the component it stands on.
#[derive(Clone, Copy, PartialEq, Eq, Debug, Structural)]
pub struct Probe {
    pub pos: Point,
    pub comp: Option<u32>,
}

/// A weapon on the floor with the component it lies on.
pub struct PickupProbe {
    pub weapon: String,
    pub pos: Point,
    pub comp: Option<u32>,
}

/// What a baked grid answers about a level.
pub struct NavSurvey {
    /// The walkable components with their cell counts, largest first.
    pub sizes: Vec<(u32, usize)>,
    /// For each component of `sizes`, its nearest other component and the gap to it.
    pub gaps: Vec<Option<(u32, NavGap)>>,
    pub main: Option<u32>,
    pub pads: Vec<PadProbe>,
    pub pickups: Vec<PickupProbe>,
    pub turrets: Vec<Probe>,
    pub doors: Vec<Probe>,
    /// The number of cells that each door on the grid marks.
    pub door_cells: Vec<usize>,
    /// Every cell in a corridor that is too tight.
    pub pinches: Vec<NavPinch>,
    /// Every step that only the player can take.
    pub climbs: Vec<NavClimb>,
    pub metrics: NavMetrics,
}

impl NavSurvey {
    /// Every component is listed once, the largest first, and has its gap entry; the main one
    /// is the largest, and there is none without floor; and the cells are few enough to count.
    pub open spec fn wf(self) -> bool {
        &&& self.gaps@.len() == self.sizes@.len()
        &&& largest_first(self.sizes@)
        &&& self.main == if self.sizes@.len() > 0 {
            Some(self.sizes@[0].0)
        } else {
            None
        }
        &&& forall|a: int, b: int|
            0 <= a < b < self.sizes@.len() ==> (#[trigger] self.sizes@[a]).0 != (
            #[trigger] self.sizes@[b]).0
        &&& cells_in(self.sizes@, self.sizes@.len()) <= usize::MAX
    }
}

/// No component has more cells than one before it.
pub open spec fn largest_first(sizes: Seq<(u32, usize)>) -> bool {
    forall|a: int, b: int|
        0 <= a < b < sizes.len() ==> (#[trigger] sizes[a]).1 >= (#[trigger] sizes[b]).1
}

/// The cells in the first `n` components.
pub open spec fn cells_in(sizes: Seq<(u32, usize)>, n: nat) -> nat
    decreases n,
{
    if n == 0 {
        0
    } else {
        cells_in(sizes, (n - 1) as nat) + sizes[n - 1].1 as nat
    }
}

// ---- Representatives ----

/// Something that stands somewhere.
pub trait Placed: Sized + Copy {
    spec fn spot(self) -> Point;

    fn place(&self) -> (p: Point)
        ensures
            p == self.spot(),
    ;
}

impl Placed for NavPinch {
    open spec fn spot(self) -> Point {
        self.pos
    }

    fn place(&self) -> (p: Point) {
        self.pos
    }
}

impl Placed for NavClimb {
    open spec fn spot(self) -> Point {
        self.from
    }

    fn place(&self) -> (p: Point) {
        self.from
    }
}

/// The cube of side [`CLUSTER`] that a point lies in.
pub open spec fn cube(p: Point) -> (int, int, int) {
    (p.x as int / CLUSTER as int, p.y as int / CLUSTER as int, p.z as int / CLUSTER as int)
}

/// Whether an item of `kept` lies in the cube of `p`.
pub open spec fn cube_taken<T: Placed>(kept: Seq<T>, p: Point) -> bool {
    exists|j: int| 0 <= j < kept.len() && cube((#[trigger] kept[j]).spot()) == cube(p)
}

/// At least one representative is kept, whatever the limit.
pub open spec fn cap(limit: usize) -> nat {
    if limit == 0 {
        1
    } else {
        limit as nat
    }
}

/// Of the first `n` items, the first in each cube, until `limit` are kept.
pub open spec fn clustered<T: Placed>(items: Seq<T>, limit: usize, n: nat) -> Seq<T>
    decreases n,
{
    if n == 0 {
        Seq::empty()
    } else {
        let kept = clustered(items, limit, (n - 1) as nat);
        let it = items[n - 1];
        if kept.len() >= cap(limit) || cube_taken(kept, it.spot()) {
            kept
        } else {
            kept.push(it)
        }
    }
}

proof fn lemma_full_cluster<T: Placed>(items: Seq<T>, limit: usize, n: nat, m: nat)
    requires
        n <= m,
        clustered(items, limit, n).len() >= cap(limit),
    ensures
        clustered(items, limit, m) == clustered(items, limit, n),
    decreases m,
{
    if n < m {
        lemma_full_cluster(items, limit, n, (m - 1) as nat);
    }
}

fn same_cube(a: &Point, b: &Point) -> (s: bool)
    ensures
        s == (cube(*a) == cube(*b)),
{
    floor_div(a.x, CLUSTER) == floor_div(b.x, CLUSTER) && floor_div(a.y, CLUSTER) == floor_div(
        b.y,
        CLUSTER,
    ) && floor_div(a.z, CLUSTER) == floor_div(b.z, CLUSTER)
}

/// Keeps one item per cube, in the order given, so that thousands of adjacent cells become
/// a short list of places to look at.
pub fn cluster<T: Placed>(items: &Vec<T>, limit: usize) -> (out: Vec<T>)
    ensures
        out@ == clustered(items@, limit, items@.len()),
{
    let most: usize = if limit == 0 {
        1
    } else {
        limit
    };
    let mut out: Vec<T> = Vec::new();
    let mut k: usize = 0;
    assert(out@ =~= clustered(items@, limit, 0));
    while k < items.len() && out.len() < most
        invariant
            k <= items@.len(),
            most == cap(limit),
            out@ == clustered(items@, limit, k as nat),
        decreases items@.len() - k,
    {
        let p: Point = items[k].place();
        let mut taken: bool = false;
        let mut j: usize = 0;
        while j < out.len()
            invariant
                j <= out@.len(),
                taken == exists|i: int| 0 <= i < j && cube((#[trigger] out@[i]).spot()) == cube(p),
            decreases out@.len() - j,
        {
            let q: Point = out[j].place();
            if same_cube(&q, &p) {
                assert(cube(out@[j as int].spot()) == cube(p));
                taken = true;
            }
            j = j + 1;
        }
        if !taken {
            out.push(items[k]);
        }
        k = k + 1;
    }
    proof {
        if k < items@.len() {
            lemma_full_cluster(items@, limit, k as nat, items@.len());
        }
    }
    out
}

/// No two representatives share a cube, and there are never more of them than were asked
/// for.
pub proof fn representatives_are_spread<T: Placed>(items: Seq<T>, limit: usize, n: nat)
    requires
        n <= items.len(),
    ensures
        clustered(items, limit, n).len() <= cap(limit),
        forall|a: int, b: int|
            0 <= a < b < clustered(items, limit, n).len() ==> cube(
                (#[trigger] clustered(items, limit, n)[a]).spot(),
            ) != cube((#[trigger] clustered(items, limit, n)[b]).spot()),
    decreases n,
{
    if n > 0 {
        representatives_are_spread(items, limit, (n - 1) as nat);
        let kept = clustered(items, limit, (n - 1) as nat);
        let it = items[n - 1];
        if !(kept.len() >= cap(limit) || cube_taken(kept, it.spot())) {
            assert forall|a: int, b: int| 0 <= a < b < kept.push(it).len() implies cube(
                (#[trigger] kept.push(it)[a]).spot(),
            ) != cube((#[trigger] kept.push(it)[b]).spot()) by {
                assert(cube(kept[a].spot()) != cube(it.spot()));
            }
        }
    }
}

/// As long as there is room, every item has a representative in its own cube.
pub proof fn every_place_is_represented<T: Placed>(items: Seq<T>, limit: usize, n: nat, i: int)
    requires
        0 <= i < n <= items.len(),
        clustered(items, limit, n).len() < cap(limit),
    ensures
        cube_taken(clustered(items, limit, n), items[i].spot()),
    decreases n,
{
    let kept = clustered(items, limit, (n - 1) as nat);
    let now = clustered(items, limit, n);
    if i < n - 1 {
        every_place_is_represented(items, limit, (n - 1) as nat, i);
        let j = choose|j: int|
            0 <= j < kept.len() && cube((#[trigger] kept[j]).spot()) == cube(items[i].spot());
        assert(now[j] == kept[j]);
    } else if !cube_taken(kept, items[i].spot()) {
        assert(now[kept.len() as int] == items[i]);
    }
}

// ---- Narrow corridors, narrowest first ----

/// `x` put behind every corridor that is no wider.
pub open spec fn insert_by_width(s: Seq<NavPinch>, x: NavPinch) -> Seq<NavPinch>
    decreases s.len(),
{
    if s.len() == 0 || s.last().width <= x.width {
        s.push(x)
    } else {
        insert_by_width(s.drop_last(), x).push(s.last())
    }
}

/// The corridors in order of width, equal ones in the order they were found.
pub open spec fn by_width(s: Seq<NavPinch>) -> Seq<NavPinch>
    decreases s.len(),
{
    if s.len() == 0 {
        s
    } else {
        insert_by_width(by_width(s.drop_last()), s.last())
    }
}

proof fn lemma_insert_at(s: Seq<NavPinch>, x: NavPinch, j: int)
    requires
        0 <= j <= s.len(),
        forall|i: int| j <= i < s.len() ==> (#[trigger] s[i]).width > x.width,
        j > 0 ==> s[j - 1].width <= x.width,
    ensures
        insert_by_width(s, x) == s.insert(j, x),
    decreases s.len(),
{
    if j == s.len() {
        assert(insert_by_width(s, x) =~= s.insert(j, x));
    } else {
        lemma_insert_at(s.drop_last(), x, j);
        assert(insert_by_width(s, x) =~= s.insert(j, x));
    }
}

fn sort_by_width(items: &Vec<NavPinch>) -> (out: Vec<NavPinch>)
    ensures
        out@ == by_width(items@),
{
    let mut out: Vec<NavPinch> = Vec::new();
    let mut k: usize = 0;
    assert(out@ =~= by_width(items@.take(0)));
    while k < items.len()
        invariant
            k <= items@.len(),
            out@ == by_width(items@.take(k as int)),
            out@.len() == k,
        decreases items@.len() - k,
    {
        let x: NavPinch = items[k];
        let mut j: usize = out.len();
        while j > 0 && out[j - 1].width > x.width
            invariant
                j <= out@.len(),
                forall|i: int| j <= i < out@.len() ==> (#[trigger] out@[i]).width > x.width,
            decreases j,
        {
            j = j - 1;
        }
        proof {
            lemma_insert_at(out@, x, j as int);
            assert(items@.take(k + 1).drop_last() =~= items@.take(k as int));
        }
        out.insert(j, x);
        k = k + 1;
    }
    assert(items@.take(k as int) =~= items@);
    out
}

proof fn lemma_insert_keeps(s: Seq<NavPinch>, x: NavPinch)
    requires
        forall|a: int, b: int| 0 <= a < b < s.len() ==> s[a].width <= s[b].width,
    ensures
        insert_by_width(s, x).len() == s.len() + 1,
        insert_by_width(s, x).to_multiset() =~= s.to_multiset().insert(x),
        forall|a: int, b: int|
            0 <= a < b < s.len() + 1 ==> insert_by_width(s, x)[a].width <= insert_by_width(
                s,
                x,
            )[b].width,
        s.len() > 0 && s.last().width > x.width ==> insert_by_width(s, x).last() == s.last(),
    decreases s.len(),
{
    broadcast use vstd::seq_lib::group_to_multiset_ensures;

    if s.len() > 0 && s.last().width > x.width {
        let t = s.drop_last();
        lemma_insert_keeps(t, x);
        let u = insert_by_width(t, x);
        assert(s =~= t.push(s.last()));
        assert forall|a: int| 0 <= a < u.len() implies u[a].width <= s.last().width by {
            if t.len() > 0 && t.last().width > x.width {
                if a < u.len() - 1 {
                    assert(u[a].width <= u[u.len() - 1].width);
                }
            } else {
                assert(u == t.push(x));
                if a < t.len() {
                    assert(u[a] == t[a] && t[a] == s[a]);
                }
            }
        }
    }
}

/// Sorting by width loses and invents nothing, and puts the narrowest corridor first.
pub proof fn narrowest_comes_first(s: Seq<NavPinch>)
    ensures
        by_width(s).to_multiset() == s.to_multiset(),
        by_width(s).len() == s.len(),
        forall|a: int, b: int| 0 <= a < b < s.len() ==> by_width(s)[a].width <= by_width(s)[b].width,
    decreases s.len(),
{
    broadcast use vstd::seq_lib::group_to_multiset_ensures;

    if s.len() > 0 {
        let t = s.drop_last();
        narrowest_comes_first(t);
        lemma_insert_keeps(by_width(t), s.last());
        assert(s =~= t.push(s.last()));
    }
}

// ---- Climbs, the ones that reconnect something first ----

/// The climbs among the first `n` that join two components, or that join none.
pub open spec fn climbs_where(s: Seq<NavClimb>, joining: bool, n: nat) -> Seq<NavClimb>
    decreases n,
{
    if n == 0 {
        Seq::empty()
    } else {
        let rest = climbs_where(s, joining, (n - 1) as nat);
        if (s[n - 1].joins is Some) == joining {
            rest.push(s[n - 1])
        } else {
            rest
        }
    }
}

/// The reconnecting climbs first, otherwise in the order they were found.
pub open spec fn joining_first(s: Seq<NavClimb>) -> Seq<NavClimb> {
    climbs_where(s, true, s.len()) + climbs_where(s, false, s.len())
}

fn push_climbs(items: &Vec<NavClimb>, joining: bool, out: &mut Vec<NavClimb>)
    ensures
        final(out)@ == old(out)@ + climbs_where(items@, joining, items@.len()),
{
    let mut k: usize = 0;
    assert(out@ =~= old(out)@ + climbs_where(items@, joining, 0));
    while k < items.len()
        invariant
            k <= items@.len(),
            out@ == old(out)@ + climbs_where(items@, joining, k as nat),
        decreases items@.len() - k,
    {
        if items[k].joins.is_some() == joining {
            out.push(items[k]);
        }
        k = k + 1;
        assert(out@ =~= old(out)@ + climbs_where(items@, joining, k as nat));
    }
}

// ---- Spawn pads ----

/// How many of the first `n` pads stand on component `c`.
pub open spec fn pads_on(comps: Seq<Option<u32>>, c: Option<u32>, n: nat) -> nat
    decreases n,
{
    if n == 0 {
        0
    } else {
        pads_on(comps, c, (n - 1) as nat) + if comps[n - 1] == c {
            1nat
        } else {
            0nat
        }
    }
}

/// Component ids in order, with "no component" below every component.
pub open spec fn comp_rank(c: Option<u32>) -> int {
    match c {
        Some(id) => id as int,
        None => -1,
    }
}

/// Whether component `a` holds more pads than `b`, or as many and the higher id.
pub open spec fn outranks(comps: Seq<Option<u32>>, a: Option<u32>, b: Option<u32>) -> bool {
    let (na, nb) = (pads_on(comps, a, comps.len()), pads_on(comps, b, comps.len()));
    na > nb || (na == nb && comp_rank(a) > comp_rank(b))
}

/// Whether `m` is the component that holds the largest group of pads.
pub open spec fn is_pad_home(comps: Seq<Option<u32>>, m: Option<u32>) -> bool {
    if comps.len() == 0 {
        m is None
    } else {
        &&& comps.contains(m)
        &&& forall|k: int| 0 <= k < comps.len() ==> !outranks(comps, #[trigger] comps[k], m)
    }
}

/// The pads among the first `n` that do not stand on `home`.
pub open spec fn pads_off(comps: Seq<Option<u32>>, home: Option<u32>, n: nat) -> Seq<usize>
    decreases n,
{
    if n == 0 {
        Seq::empty()
    } else {
        let rest = pads_off(comps, home, (n - 1) as nat);
        if comps[n - 1] != home {
            rest.push((n - 1) as usize)
        } else {
            rest
        }
    }
}

fn same_comp(a: Option<u32>, b: Option<u32>) -> (s: bool)
    ensures
        s == (a == b),
{
    match (a, b) {
        (Some(x), Some(y)) => x == y,
        (None, None) => true,
        _ => false,
    }
}

fn rank_of(c: Option<u32>) -> (r: i64)
    ensures
        r == comp_rank(c),
{
    match c {
        Some(id) => id as i64,
        None => -1,
    }
}

fn count_pads(comps: &Vec<Option<u32>>, c: Option<u32>) -> (n: usize)
    ensures
        n == pads_on(comps@, c, comps@.len()),
        n <= comps@.len(),
{
    let mut n: usize = 0;
    let mut k: usize = 0;
    while k < comps.len()
        invariant
            n <= k <= comps@.len(),
            n == pads_on(comps@, c, k as nat),
        decreases comps@.len() - k,
    {
        if same_comp(comps[k], c) {
            n = n + 1;
        }
        k = k + 1;
    }
    n
}

/// Which spawn pads a hunt keeps and which it drops. Pads are grouped by the component they
/// stand on and the largest group wins; the result is the winning component and the indices
/// of the pads outside it.
pub fn partition_pads(comps: &Vec<Option<u32>>) -> (out: (Option<u32>, Vec<usize>))
    ensures
        is_pad_home(comps@, out.0),
        out.1@ == pads_off(comps@, out.0, comps@.len()),
{
    let mut home: Option<u32> = None;
    let mut most: usize = 0;
    let mut k: usize = 0;
    while k < comps.len()
        invariant
            k <= comps@.len(),
            k == 0 ==> home is None,
            k > 0 ==> comps@.contains(home) && most == pads_on(comps@, home, comps@.len()),
            forall|i: int| 0 <= i < k ==> !outranks(comps@, #[trigger] comps@[i], home),
        decreases comps@.len() - k,
    {
        let c: Option<u32> = comps[k];
        let n: usize = count_pads(comps, c);
        assert(comps@[k as int] == c);
        if k == 0 || n > most || (n == most && rank_of(c) > rank_of(home)) {
            home = c;
            most = n;
        }
        k = k + 1;
    }
    let mut off: Vec<usize> = Vec::new();
    let mut j: usize = 0;
    while j < comps.len()
        invariant
            j <= comps@.len(),
            off@ == pads_off(comps@, home, j as nat),
        decreases comps@.len() - j,
    {
        if !same_comp(comps[j], home) {
            off.push(j);
        }
        j = j + 1;
    }
    (home, off)
}

proof fn lemma_pads_on_bounds(comps: Seq<Option<u32>>, c: Option<u32>, n: nat)
    requires
        n <= comps.len(),
    ensures
        pads_on(comps, c, n) > 0 <==> exists|i: int| 0 <= i < n && #[trigger] comps[i] == c,
    decreases n,
{
    if n > 0 {
        lemma_pads_on_bounds(comps, c, (n - 1) as nat);
        if pads_on(comps, c, n) > 0 && comps[n - 1] != c {
            let i = choose|i: int| 0 <= i < n - 1 && #[trigger] comps[i] == c;
            assert(0 <= i < n && comps[i] == c);
        }
        if exists|i: int| 0 <= i < n && #[trigger] comps[i] == c {
            let i = choose|i: int| 0 <= i < n && #[trigger] comps[i] == c;
            assert(i == n - 1 || (0 <= i < n - 1 && comps[i] == c));
        }
    }
}

/// The pads that stay are never fewer than those of any one component that goes, and the
/// component that wins is unique.
pub proof fn largest_pad_group_stays(comps: Seq<Option<u32>>, home: Option<u32>, other: Option<u32>)
    requires
        is_pad_home(comps, home),
    ensures
        pads_on(comps, other, comps.len()) <= pads_on(comps, home, comps.len()),
        is_pad_home(comps, other) ==> other == home,
{
    lemma_pads_on_bounds(comps, other, comps.len());
    if pads_on(comps, other, comps.len()) > 0 {
        let i = choose|i: int| 0 <= i < comps.len() && #[trigger] comps[i] == other;
        assert(!outranks(comps, comps[i], home));
    }
    if is_pad_home(comps, other) && comps.len() > 0 {
        let i = choose|i: int| 0 <= i < comps.len() && #[trigger] comps[i] == other;
        let j = choose|j: int| 0 <= j < comps.len() && #[trigger] comps[j] == home;
        assert(!outranks(comps, comps[i], home));
        assert(!outranks(comps, comps[j], other));
    }
}

/// A pad is dropped exactly when it stands off the winning component.
pub proof fn dropped_pads_are_the_stray_ones(comps: Seq<Option<u32>>, home: Option<u32>, n: nat)
    requires
        n <= comps.len() <= usize::MAX,
    ensures
        forall|i: int|
            0 <= i < n ==> (pads_off(comps, home, n).contains(i as usize) <==> #[trigger] comps[i]
                != home),
        forall|k: int|
            0 <= k < pads_off(comps, home, n).len() ==> (#[trigger] pads_off(comps, home, n)[k]) < n,
    decreases n,
{
    if n > 0 {
        let m = (n - 1) as nat;
        dropped_pads_are_the_stray_ones(comps, home, m);
        let rest = pads_off(comps, home, m);
        let all = pads_off(comps, home, n);
        assert forall|i: int| 0 <= i < n implies (all.contains(i as usize) <==> #[trigger] comps[i]
            != home) by {
            if i < m {
                if rest.contains(i as usize) {
                    let k = choose|k: int| 0 <= k < rest.len() && rest[k] == i as usize;
                    assert(all[k] == i as usize);
                }
                if all.contains(i as usize) {
                    let k = choose|k: int| 0 <= k < all.len() && all[k] == i as usize;
                    assert(k < rest.len());
                    assert(rest[k] == i as usize);
                }
            } else {
                if comps[i] != home {
                    assert(all[rest.len() as int] == i as usize);
                } else if all.contains(i as usize) {
                    let k = choose|k: int| 0 <= k < rest.len() && rest[k] == i as usize;
                    assert(rest[k] < m);
                }
            }
        }
    }
}

// ---- The findings ----

/// Whether something that stands on `comp` cannot be reached from the level.
pub open spec fn stranded(main: Option<u32>, comp: Option<u32>) -> bool {
    main is Some && comp != main
}

pub open spec fn orphan(kind: Seq<char>, label: Seq<char>, pos: Point) -> OrphanView {
    OrphanView { kind, label, pos }
}

/// The stranded pads among the first `n`.
pub open spec fn stranded_pads(s: NavSurvey, n: nat) -> Seq<OrphanView>
    decreases n,
{
    if n == 0 {
        Seq::empty()
    } else {
        let rest = stranded_pads(s, (n - 1) as nat);
        if stranded(s.main, s.pads@[n - 1].comp) {
            rest.push(
                orphan("spawn pad"@, "pad "@ + nat_text((n - 1) as nat), s.pads@[n - 1].pos),
            )
        } else {
            rest
        }
    }
}

/// The stranded weapons among the first `n`.
pub open spec fn stranded_pickups(s: NavSurvey, n: nat) -> Seq<OrphanView>
    decreases n,
{
    if n == 0 {
        Seq::empty()
    } else {
        let rest = stranded_pickups(s, (n - 1) as nat);
        if stranded(s.main, s.pickups@[n - 1].comp) {
            rest.push(orphan("pickup"@, s.pickups@[n - 1].weapon@, s.pickups@[n - 1].pos))
        } else {
            rest
        }
    }
}

/// The stranded objects of one kind among the first `n`.
pub open spec fn stranded_probes(
    main: Option<u32>,
    probes: Seq<Probe>,
    kind: Seq<char>,
    label: Seq<char>,
    n: nat,
) -> Seq<OrphanView>
    decreases n,
{
    if n == 0 {
        Seq::empty()
    } else {
        let rest = stranded_probes(main, probes, kind, label, (n - 1) as nat);
        if stranded(main, probes[n - 1].comp) {
            rest.push(orphan(kind, label, probes[n - 1].pos))
        } else {
            rest
        }
    }
}

/// Every stranded object: the pads, the weapons, the sentry guns and the doors.
pub open spec fn stranded_objects(s: NavSurvey) -> Seq<OrphanView> {
    stranded_pads(s, s.pads@.len()) + stranded_pickups(s, s.pickups@.len()) + stranded_probes(
        s.main,
        s.turrets@,
        "sentry gun"@,
        "turret"@,
        s.turrets@.len(),
    ) + stranded_probes(s.main, s.doors@, "door"@, "door"@, s.doors@.len())
}

pub open spec fn orphans_shown(o: Seq<NavOrphan>) -> Seq<OrphanView> {
    o.map_values(|x: NavOrphan| x@)
}

/// The finding on component `k` of the survey.
pub open spec fn island_of(s: NavSurvey, k: int) -> NavIsland {
    let total = cells_in(s.sizes@, s.sizes@.len());
    NavIsland {
        id: s.sizes@[k].0,
        cells: s.sizes@[k].1,
        pct: round_half_even(
            s.sizes@[k].1 as nat * 1000,
            if total == 0 {
                1
            } else {
                total
            },
        ) as u128,
        gap: match s.gaps@[k] {
            Some((_, g)) => Some(g),
            None => None,
        },
        gap_to: match s.gaps@[k] {
            Some((c, _)) => Some(c),
            None => None,
        },
    }
}

/// The components of the pads after snapping.
pub open spec fn pad_comps(pads: Seq<PadProbe>) -> Seq<Option<u32>> {
    pads.map_values(|p: PadProbe| p.snapped_comp)
}

/// The doors among the first `n` that mark no cell.
pub open spec fn doors_marking_none(cells: Seq<usize>, n: nat) -> Seq<usize>
    decreases n,
{
    if n == 0 {
        Seq::empty()
    } else {
        let rest = doors_marking_none(cells, (n - 1) as nat);
        if cells[n - 1] == 0 {
            rest.push((n - 1) as usize)
        } else {
            rest
        }
    }
}

/// The fewest cells that any of the first `n` doors marks, zero without a door.
pub open spec fn fewest(cells: Seq<usize>, n: nat) -> usize
    decreases n,
{
    if n == 0 {
        0
    } else if n == 1 {
        cells[0]
    } else {
        let f = fewest(cells, (n - 1) as nat);
        if cells[n - 1] < f {
            cells[n - 1]
        } else {
            f
        }
    }
}

fn push_orphan(out: &mut Vec<NavOrphan>, kind: &'static str, label: String, pos: Point)
    ensures
        orphans_shown(final(out)@) == orphans_shown(old(out)@).push(orphan(kind@, label@, pos)),
{
    out.push(NavOrphan { kind, label, pos });
    assert(orphans_shown(out@) =~= orphans_shown(old(out)@).push(orphan(kind@, label@, pos)));
}

fn is_stranded(main: Option<u32>, comp: Option<u32>) -> (b: bool)
    ensures
        b == stranded(main, comp),
{
    main.is_some() && !same_comp(comp, main)
}

fn push_stranded_probes(
    main: Option<u32>,
    probes: &Vec<Probe>,
    kind: &'static str,
    label: &'static str,
    out: &mut Vec<NavOrphan>,
)
    ensures
        orphans_shown(final(out)@) == orphans_shown(old(out)@) + stranded_probes(
            main,
            probes@,
            kind@,
            label@,
            probes@.len(),
        ),
{
    let mut k: usize = 0;
    assert(orphans_shown(out@) =~= orphans_shown(old(out)@) + stranded_probes(
        main,
        probes@,
        kind@,
        label@,
        0,
    ));
    while k < probes.len()
        invariant
            k <= probes@.len(),
            orphans_shown(out@) == orphans_shown(old(out)@) + stranded_probes(
                main,
                probes@,
                kind@,
                label@,
                k as nat,
            ),
        decreases probes@.len() - k,
    {
        if is_stranded(main, probes[k].comp) {
            push_orphan(out, kind, label.to_owned(), probes[k].pos);
        }
        k = k + 1;
        assert(orphans_shown(out@) =~= orphans_shown(old(out)@) + stranded_probes(
            main,
            probes@,
            kind@,
            label@,
            k as nat,
        ));
    }
}

impl NavSurvey {
    /// Whether `i` is what the grid shows of the level.
    pub open spec fn finds(self, i: NavIssues) -> bool {
        &&& i.calc_ms == 0
        &&& i.total_cells == cells_in(self.sizes@, self.sizes@.len())
        &&& i.components == self.sizes@.len()
        &&& i.main == self.main
        &&& i.main_cells == if self.sizes@.len() > 0 {
            self.sizes@[0].1
        } else {
            0
        }
        &&& i.islands@ == Seq::new(
            if self.sizes@.len() == 0 {
                0
            } else {
                (self.sizes@.len() - 1) as nat
            },
            |k: int| island_of(self, k + 1),
        )
        &&& orphans_shown(i.orphans@) == stranded_objects(self)
        &&& exists|home: Option<u32>| #[trigger]
            is_pad_home(pad_comps(self.pads@), home) && i.excluded_pads@ == pads_off(
                pad_comps(self.pads@),
                home,
                self.pads@.len(),
            ).map_values(|k: usize| (k, self.pads@[k as int].snapped))
        &&& i.blind_doors@ == doors_marking_none(self.door_cells@, self.door_cells@.len())
        &&& i.door_count == self.door_cells@.len()
        &&& i.thinnest_door == fewest(self.door_cells@, self.door_cells@.len())
        &&& i.pinch_cells == self.pinches@.len()
        &&& i.pinches@ == clustered(by_width(self.pinches@), REPRESENTATIVES, self.pinches@.len())
        &&& i.narrowest == if self.pinches@.len() > 0 {
            Some(by_width(self.pinches@)[0].width)
        } else {
            None
        }
        &&& i.climb_edges == self.climbs@.len()
        &&& i.joining_climbs == climbs_where(self.climbs@, true, self.climbs@.len()).len()
        &&& i.climbs@ == clustered(
            joining_first(self.climbs@),
            REPRESENTATIVES,
            joining_first(self.climbs@).len(),
        )
        &&& i.metrics == self.metrics
    }

    /// The findings and the overlay, off one grid whose standable cells are `cells`.
    pub fn nav_pass(&self, cells: &Vec<(Point, u32)>) -> (pass: (NavIssues, Vec<OverlayMark>))
        requires
            self.wf(),
        ensures
            self.finds(pass.0),
            is_overlay(cells@, pass.0, pass.1@),
    {
        let issues: NavIssues = self.collect_nav_issues();
        let overlay: Vec<OverlayMark> = nav_overlay(cells, &issues);
        (issues, overlay)
    }

    fn total(&self) -> (n: usize)
        requires
            self.wf(),
        ensures
            n == cells_in(self.sizes@, self.sizes@.len()),
    {
        let mut n: usize = 0;
        let mut k: usize = 0;
        while k < self.sizes.len()
            invariant
                k <= self.sizes@.len(),
                n == cells_in(self.sizes@, k as nat),
                cells_in(self.sizes@, self.sizes@.len()) <= usize::MAX,
            decreases self.sizes@.len() - k,
        {
            proof {
                lemma_cells_grow(self.sizes@, (k + 1) as nat, self.sizes@.len());
            }
            n = n + self.sizes[k].1;
            k = k + 1;
        }
        n
    }

    fn islands(&self) -> (out: Vec<NavIsland>)
        requires
            self.wf(),
        ensures
            out@ == Seq::new(
                if self.sizes@.len() == 0 {
                    0
                } else {
                    (self.sizes@.len() - 1) as nat
                },
                |k: int| island_of(*self, k + 1),
            ),
    {
        let total: usize = self.total();
        let over: u128 = if total == 0 {
            1
        } else {
            total as u128
        };
        let mut out: Vec<NavIsland> = Vec::new();
        let mut k: usize = 1;
        while k < self.sizes.len()
            invariant
                self.wf(),
                total == cells_in(self.sizes@, self.sizes@.len()),
                over == if total == 0 {
                    1
                } else {
                    total as u128
                },
                1 <= k,
                k <= self.sizes@.len() || k == 1,
                out@.len() == k - 1,
                forall|j: int| 0 <= j < k - 1 ==> #[trigger] out@[j] == island_of(*self, j + 1),
            decreases self.sizes@.len() - k,
        {
            let (id, cells): (u32, usize) = self.sizes[k];
            let near: Option<(u32, NavGap)> = self.gaps[k];
            out.push(
                NavIsland {
                    id,
                    cells,
                    pct: rounded(cells as u128 * 1000, over),
                    gap: match near {
                        Some((_, g)) => Some(g),
                        None => None,
                    },
                    gap_to: match near {
                        Some((c, _)) => Some(c),
                        None => None,
                    },
                },
            );
            k = k + 1;
        }
        assert(out@ =~= Seq::new(
            if self.sizes@.len() == 0 {
                0
            } else {
                (self.sizes@.len() - 1) as nat
            },
            |k: int| island_of(*self, k + 1),
        ));
        out
    }

    fn orphans(&self) -> (out: Vec<NavOrphan>)
        ensures
            orphans_shown(out@) == stranded_objects(*self),
    {
        let mut out: Vec<NavOrphan> = Vec::new();
        let mut k: usize = 0;
        assert(orphans_shown(out@) =~= stranded_pads(*self, 0));
        while k < self.pads.len()
            invariant
                k <= self.pads@.len(),
                orphans_shown(out@) == stranded_pads(*self, k as nat),
            decreases self.pads@.len() - k,
        {
            if is_stranded(self.main, self.pads[k].comp) {
                let mut label: String = "pad ".to_owned();
                push_nat(&mut label, k as u128);
                push_orphan(&mut out, "spawn pad", label, self.pads[k].pos);
            }
            k = k + 1;
        }
        let ghost head = orphans_shown(out@);
        let mut j: usize = 0;
        assert(orphans_shown(out@) =~= head + stranded_pickups(*self, 0));
        while j < self.pickups.len()
            invariant
                j <= self.pickups@.len(),
                orphans_shown(out@) == head + stranded_pickups(*self, j as nat),
            decreases self.pickups@.len() - j,
        {
            let p: &PickupProbe = &self.pickups[j];
            if is_stranded(self.main, p.comp) {
                push_orphan(&mut out, "pickup", p.weapon.clone(), p.pos);
            }
            j = j + 1;
            assert(orphans_shown(out@) =~= head + stranded_pickups(*self, j as nat));
        }
        push_stranded_probes(self.main, &self.turrets, "sentry gun", "turret", &mut out);
        push_stranded_probes(self.main, &self.doors, "door", "door", &mut out);
        assert(orphans_shown(out@) =~= stranded_objects(*self));
        out
    }

    fn snapped_comps(&self) -> (out: Vec<Option<u32>>)
        ensures
            out@ == pad_comps(self.pads@),
    {
        let mut out: Vec<Option<u32>> = Vec::new();
        let mut k: usize = 0;
        while k < self.pads.len()
            invariant
                k <= self.pads@.len(),
                out@.len() == k,
                forall|i: int| 0 <= i < k ==> #[trigger] out@[i] == self.pads@[i].snapped_comp,
            decreases self.pads@.len() - k,
        {
            out.push(self.pads[k].snapped_comp);
            k = k + 1;
        }
        assert(out@ =~= pad_comps(self.pads@));
        out
    }

    /// Everything the report says, off one grid.
    pub fn collect_nav_issues(&self) -> (i: NavIssues)
        requires
            self.wf(),
        ensures
            self.finds(i),
    {
        let total: usize = self.total();
        let main_cells: usize = if self.sizes.len() > 0 {
            self.sizes[0].1
        } else {
            0
        };
        let islands: Vec<NavIsland> = self.islands();
        let orphans: Vec<NavOrphan> = self.orphans();
        let comps: Vec<Option<u32>> = self.snapped_comps();
        let (home, off): (Option<u32>, Vec<usize>) = partition_pads(&comps);
        let mut excluded_pads: Vec<(usize, Point)> = Vec::new();
        let pad_count: usize = comps.len();
        let mut k: usize = 0;
        proof {
            assert(pad_count <= usize::MAX);
            dropped_pads_are_the_stray_ones(comps@, home, comps@.len());
        }
        while k < off.len()
            invariant
                k <= off@.len(),
                off@ == pads_off(comps@, home, comps@.len()),
                comps@.len() == self.pads@.len(),
                forall|j: int|
                    0 <= j < off@.len() ==> (#[trigger] pads_off(comps@, home, comps@.len())[j])
                        < comps@.len(),
                excluded_pads@.len() == k,
                forall|j: int|
                    0 <= j < k ==> #[trigger] excluded_pads@[j] == (
                        off@[j],
                        self.pads@[off@[j] as int].snapped,
                    ),
            decreases off@.len() - k,
        {
            let i: usize = off[k];
            assert(pads_off(comps@, home, comps@.len())[k as int] < comps@.len());
            excluded_pads.push((i, self.pads[i].snapped));
            k = k + 1;
        }
        assert(excluded_pads@ =~= pads_off(pad_comps(self.pads@), home, self.pads@.len()).map_values(
            |k: usize| (k, self.pads@[k as int].snapped),
        ));
        let mut blind_doors: Vec<usize> = Vec::new();
        let mut thinnest_door: usize = 0;
        let mut d: usize = 0;
        while d < self.door_cells.len()
            invariant
                d <= self.door_cells@.len(),
                blind_doors@ == doors_marking_none(self.door_cells@, d as nat),
                thinnest_door == fewest(self.door_cells@, d as nat),
            decreases self.door_cells@.len() - d,
        {
            let c: usize = self.door_cells[d];
            if c == 0 {
                blind_doors.push(d);
            }
            if d == 0 || c < thinnest_door {
                thinnest_door = c;
            }
            d = d + 1;
        }
        let pinch: Vec<NavPinch> = sort_by_width(&self.pinches);
        proof {
            narrowest_comes_first(self.pinches@);
        }
        let narrowest: Option<i32> = if pinch.len() > 0 {
            Some(pinch[0].width)
        } else {
            None
        };
        let pinches: Vec<NavPinch> = cluster(&pinch, REPRESENTATIVES);
        let mut ordered: Vec<NavClimb> = Vec::new();
        push_climbs(&self.climbs, true, &mut ordered);
        let joining_climbs: usize = ordered.len();
        assert(ordered@ =~= climbs_where(self.climbs@, true, self.climbs@.len()));
        push_climbs(&self.climbs, false, &mut ordered);
        let climbs: Vec<NavClimb> = cluster(&ordered, REPRESENTATIVES);
        NavIssues {
            calc_ms: 0,
            total_cells: total,
            components: self.sizes.len(),
            main: self.main,
            main_cells,
            islands,
            orphans,
            excluded_pads,
            pinch_cells: self.pinches.len(),
            pinches,
            narrowest,
            blind_doors,
            door_count: self.door_cells.len(),
            thinnest_door,
            climb_edges: self.climbs.len(),
            joining_climbs,
            climbs,
            metrics: self.metrics,
        }
    }
}

/// The islands of a report come largest first, none has more cells than the main floor, and
/// no component is reported twice.
pub proof fn islands_come_largest_first(s: NavSurvey, i: NavIssues)
    requires
        s.wf(),
        s.finds(i),
    ensures
        forall|a: int| 0 <= a < i.islands@.len() ==> (#[trigger] i.islands@[a]).cells <= i.main_cells,
        forall|a: int, b: int|
            0 <= a < b < i.islands@.len() ==> (#[trigger] i.islands@[a]).cells >= (
            #[trigger] i.islands@[b]).cells,
        forall|a: int, b: int|
            0 <= a < b < i.islands@.len() ==> (#[trigger] i.islands@[a]).id != (
            #[trigger] i.islands@[b]).id,
{
    assert forall|a: int| 0 <= a < i.islands@.len() implies (#[trigger] i.islands@[a]).cells
        <= i.main_cells by {
        assert(s.sizes@[0].1 >= s.sizes@[a + 1].1);
    }
    assert forall|a: int, b: int| 0 <= a < b < i.islands@.len() implies (
    #[trigger] i.islands@[a]).cells >= (#[trigger] i.islands@[b]).cells && i.islands@[a].id
        != i.islands@[b].id by {
        assert(s.sizes@[a + 1].1 >= s.sizes@[b + 1].1);
        assert(s.sizes@[a + 1].0 != s.sizes@[b + 1].0);
    }
}

/// No island of a report is the main component, and none of its floor is painted as the main
/// floor is.
pub proof fn no_island_is_the_main_floor(s: NavSurvey, i: NavIssues, k: int, c: NavColor)
    requires
        s.wf(),
        s.finds(i),
        0 <= k < i.islands@.len(),
    ensures
        i.main is Some,
        i.main != Some(i.islands@[k].id),
        is_cell_color(i, i.islands@[k].id, c) ==> c != NavColor::Main,
{
    assert(s.sizes@[0].0 != s.sizes@[k + 1].0);
}

/// There is a main component exactly when there is floor that hunters can stand on, and it is
/// the component that counts as the main floor.
pub proof fn the_main_floor_is_the_largest_component(s: NavSurvey, i: NavIssues)
    requires
        s.wf(),
        s.finds(i),
    ensures
        i.main is Some <==> i.components > 0,
        i.main matches Some(m) ==> s.sizes@[0] == (m, i.main_cells),
        forall|k: int| 0 <= k < s.sizes@.len() ==> (#[trigger] s.sizes@[k]).1 <= i.main_cells,
{
    assert forall|k: int| 0 <= k < s.sizes@.len() implies (#[trigger] s.sizes@[k]).1
        <= i.main_cells by {
        if k > 0 {
            assert(s.sizes@[0].1 >= s.sizes@[k].1);
        }
    }
}

/// Every cell of floor is either on the main floor or on exactly one island of the report.
pub proof fn islands_and_the_main_floor_are_all_there_is(s: NavSurvey, i: NavIssues)
    requires
        s.wf(),
        s.finds(i),
    ensures
        i.total_cells == i.main_cells + island_cells(i.islands@, i.islands@.len()),
{
    if s.sizes@.len() > 0 {
        lemma_island_cells(s, i, i.islands@.len());
    }
}

/// The cells on the first `n` islands.
pub open spec fn island_cells(islands: Seq<NavIsland>, n: nat) -> nat
    decreases n,
{
    if n == 0 {
        0
    } else {
        island_cells(islands, (n - 1) as nat) + islands[n - 1].cells as nat
    }
}

proof fn lemma_island_cells(s: NavSurvey, i: NavIssues, n: nat)
    requires
        s.finds(i),
        s.sizes@.len() > 0,
        n <= i.islands@.len(),
    ensures
        cells_in(s.sizes@, n + 1) == i.main_cells + island_cells(i.islands@, n),
    decreases n,
{
    if n > 0 {
        lemma_island_cells(s, i, (n - 1) as nat);
        assert(i.islands@[n - 1].cells == s.sizes@[n as int].1);
    } else {
        assert(cells_in(s.sizes@, 0) == 0);
    }
}

proof fn lemma_cells_grow(sizes: Seq<(u32, usize)>, a: nat, b: nat)
    requires
        a <= b,
    ensures
        cells_in(sizes, a) <= cells_in(sizes, b),
    decreases b,
{
    if a < b {
        lemma_cells_grow(sizes, a, (b - 1) as nat);
    }
}

// ---- The overlay ----

/// How many islands have a colour of their own; those after them share one.
pub const ISLAND_COLORS: usize = 6;

/// What a mark of the overlay stands for.
#[derive(Clone, Copy, PartialEq, Eq, Debug, Structural)]
pub enum NavColor {
    /// Floor of the main component.
    Main,
    /// Floor of one of the largest islands, by size rank.
    Island(usize),
    /// Floor of any other component.
    Tail,
    /// A corridor that the body does not fit down.
    Pinch,
    /// A climb that only the player can take.
    Climb,
    /// Such a climb that would reconnect a cut-off area.
    Join,
}

#[derive(Clone, Copy, PartialEq, Eq, Debug, Structural)]
pub struct OverlayMark {
    pub pos: Point,
    pub color: NavColor,
}

/// Whether `k` is the place of component `comp` in the list of islands.
pub open spec fn is_rank(islands: Seq<NavIsland>, comp: u32, k: int) -> bool {
    &&& 0 <= k < islands.len()
    &&& islands[k].id == comp
    &&& forall|j: int| k < j < islands.len() ==> (#[trigger] islands[j]).id != comp
}

/// The colour of a cell on component `comp`.
pub open spec fn is_cell_color(i: NavIssues, comp: u32, c: NavColor) -> bool {
    if i.main == Some(comp) {
        c == NavColor::Main
    } else {
        match c {
            NavColor::Island(k) => k < ISLAND_COLORS && is_rank(i.islands@, comp, k as int),
            NavColor::Tail => forall|k: int| is_rank(i.islands@, comp, k) ==> k >= ISLAND_COLORS,
            _ => false,
        }
    }
}

fn cell_color(issues: &NavIssues, comp: u32) -> (c: NavColor)
    ensures
        is_cell_color(*issues, comp, c),
{
    let home: bool = match issues.main {
        Some(m) => m == comp,
        None => false,
    };
    if home {
        return NavColor::Main;
    }
    let mut k: usize = issues.islands.len();
    while k > 0
        invariant
            k <= issues.islands@.len(),
            issues.main != Some(comp),
            forall|j: int| k <= j < issues.islands@.len() ==> (#[trigger] issues.islands@[j]).id != comp,
        decreases k,
    {
        k = k - 1;
        if issues.islands[k].id == comp {
            assert(is_rank(issues.islands@, comp, k as int));
            return if k < ISLAND_COLORS {
                NavColor::Island(k)
            } else {
                NavColor::Tail
            };
        }
    }
    NavColor::Tail
}

pub open spec fn climb_color(c: NavClimb) -> NavColor {
    if c.joins is Some {
        NavColor::Join
    } else {
        NavColor::Climb
    }
}

/// Whether `out` is the overlay: one mark per standable cell, coloured by component, and one
/// per narrow corridor and climb that the report lists.
pub open spec fn is_overlay(
    cells: Seq<(Point, u32)>,
    issues: NavIssues,
    out: Seq<OverlayMark>,
) -> bool {
    &&& out.len() == cells.len() + issues.pinches@.len() + issues.climbs@.len()
    &&& forall|k: int|
        0 <= k < cells.len() ==> (#[trigger] out[k]).pos == cells[k].0 && is_cell_color(
            issues,
            cells[k].1,
            out[k].color,
        )
    &&& forall|k: int|
        0 <= k < issues.pinches@.len() ==> #[trigger] out[cells.len() + k] == (OverlayMark {
            pos: issues.pinches@[k].pos,
            color: NavColor::Pinch,
        })
    &&& forall|k: int|
        0 <= k < issues.climbs@.len() ==> #[trigger] out[cells.len() + issues.pinches@.len() + k]
            == (OverlayMark {
            pos: issues.climbs@[k].from,
            color: climb_color(issues.climbs@[k]),
        })
}

/// Draws the overlay.
pub fn nav_overlay(cells: &Vec<(Point, u32)>, issues: &NavIssues) -> (out: Vec<OverlayMark>)
    ensures
        is_overlay(cells@, *issues, out@),
{
    let mut out: Vec<OverlayMark> = Vec::new();
    let mut k: usize = 0;
    while k < cells.len()
        invariant
            k <= cells@.len(),
            out@.len() == k,
            forall|j: int|
                0 <= j < k ==> (#[trigger] out@[j]).pos == cells@[j].0 && is_cell_color(
                    *issues,
                    cells@[j].1,
                    out@[j].color,
                ),
        decreases cells@.len() - k,
    {
        let (pos, comp): (Point, u32) = cells[k];
        let color: NavColor = cell_color(issues, comp);
        out.push(OverlayMark { pos, color });
        k = k + 1;
    }
    let ghost floor = out@;
    assert forall|k: int| 0 <= k < floor.len() implies (#[trigger] floor[k]).pos == cells@[k].0
        && is_cell_color(*issues, cells@[k].1, floor[k].color) by {
        assert(out@[k] == floor[k]);
    }
    let mut p: usize = 0;
    while p < issues.pinches.len()
        invariant
            p <= issues.pinches@.len(),
            floor.len() == cells@.len(),
            out@.len() == floor.len() + p,
            out@.take(floor.len() as int) == floor,
            forall|j: int|
                0 <= j < p ==> #[trigger] out@[cells@.len() + j] == (OverlayMark {
                    pos: issues.pinches@[j].pos,
                    color: NavColor::Pinch,
                }),
        decreases issues.pinches@.len() - p,
    {
        let ghost before = out@;
        out.push(OverlayMark { pos: issues.pinches[p].pos, color: NavColor::Pinch });
        assert(out@.take(floor.len() as int) =~= before.take(floor.len() as int));
        p = p + 1;
    }
    let ghost marked = out@;
    assert forall|k: int| 0 <= k < issues.pinches@.len() implies #[trigger] marked[cells@.len() + k]
        == (OverlayMark { pos: issues.pinches@[k].pos, color: NavColor::Pinch }) by {
        assert(out@[cells@.len() + k] == marked[cells@.len() + k]);
    }
    let mut c: usize = 0;
    while c < issues.climbs.len()
        invariant
            c <= issues.climbs@.len(),
            marked.len() == cells@.len() + issues.pinches@.len(),
            out@.len() == marked.len() + c,
            out@.take(marked.len() as int) == marked,
            forall|j: int|
                0 <= j < c ==> #[trigger] out@[cells@.len() + issues.pinches@.len() + j] == (
                OverlayMark { pos: issues.climbs@[j].from, color: climb_color(issues.climbs@[j]) }),
        decreases issues.climbs@.len() - c,
    {
        let ghost before = out@;
        let color: NavColor = if issues.climbs[c].joins.is_some() {
            NavColor::Join
        } else {
            NavColor::Climb
        };
        out.push(OverlayMark { pos: issues.climbs[c].from, color });
        assert(out@.take(marked.len() as int) =~= before.take(marked.len() as int));
        c = c + 1;
    }
    assert forall|k: int| 0 <= k < marked.len() implies out@[k] == marked[k] by {
        assert(out@.take(marked.len() as int)[k] == marked[k]);
    }
    assert forall|k: int| 0 <= k < floor.len() implies out@[k] == floor[k] by {
        assert(marked.take(floor.len() as int)[k] == floor[k]);
    }
    assert forall|k: int| 0 <= k < cells@.len() implies (#[trigger] out@[k]).pos == cells@[k].0
        && is_cell_color(*issues, cells@[k].1, out@[k].color) by {
        assert(out@[k] == floor[k]);
    }
    assert forall|k: int| 0 <= k < issues.pinches@.len() implies #[trigger] out@[cells@.len() + k]
        == (OverlayMark { pos: issues.pinches@[k].pos, color: NavColor::Pinch }) by {
        assert(out@[cells@.len() + k] == marked[cells@.len() + k]);
    }
    out
}

// ---- The panel ----

/// The navigation tab: the cached findings, the overlay, whether it is drawn, and a number
/// that changes whenever what is drawn may have changed.
pub struct NavPanel {
    pub issues: Option<NavIssues>,
    pub overlay: Option<Vec<OverlayMark>>,
    pub overlay_on: bool,
    pub overlay_rev: u32,
}

/// The tag in front of a line of the text report.
pub open spec fn tag_text(sev: NavSeverity) -> Seq<char> {
    match sev {
        NavSeverity::Error => "!! "@,
        NavSeverity::Warn => " ! "@,
        _ => "   "@,
    }
}

/// The first `n` lines, tagged and separated by line breaks.
pub open spec fn block_text(lines: Seq<LineView>, n: nat) -> Seq<char>
    decreases n,
{
    if n == 0 {
        Seq::empty()
    } else if n == 1 {
        tag_text(lines[0].sev) + lines[0].text
    } else {
        block_text(lines, (n - 1) as nat) + "\n"@ + tag_text(lines[n - 1].sev) + lines[n - 1].text
    }
}

/// The whole report as one block of text.
pub open spec fn block_of(issues: NavIssues) -> Seq<char> {
    let l = crate::nav_issues::report_lines(issues);
    block_text(l, l.len())
}

/// How many of the first `n` lines report a fault.
pub open spec fn faults_in(lines: Seq<LineView>, n: nat) -> nat
    decreases n,
{
    if n == 0 {
        0
    } else {
        faults_in(lines, (n - 1) as nat) + if lines[n - 1].sev == NavSeverity::Error {
            1nat
        } else {
            0nat
        }
    }
}

/// Counts the faults among `lines`.
pub fn fault_count(lines: &Vec<NavLine>) -> (n: usize)
    ensures
        n == faults_in(shown(lines@), lines@.len()),
{
    let mut n: usize = 0;
    let mut k: usize = 0;
    while k < lines.len()
        invariant
            n <= k <= lines@.len(),
            n == faults_in(shown(lines@), k as nat),
        decreases lines@.len() - k,
    {
        if lines[k].sev == NavSeverity::Error {
            n = n + 1;
        }
        k = k + 1;
    }
    n
}

fn block(lines: &Vec<NavLine>) -> (t: String)
    ensures
        t@ == block_text(shown(lines@), lines@.len()),
{
    let mut t: String = String::new();
    let mut k: usize = 0;
    while k < lines.len()
        invariant
            k <= lines@.len(),
            t@ == block_text(shown(lines@), k as nat),
        decreases lines@.len() - k,
    {
        let l: &NavLine = &lines[k];
        assert(shown(lines@)[k as int] == l@);
        let ghost before = t@;
        if k > 0 {
            t.push_str("\n");
        }
        match l.sev {
            NavSeverity::Error => {
                t.push_str("!! ");
            },
            NavSeverity::Warn => {
                t.push_str(" ! ");
            },
            _ => {
                t.push_str("   ");
            },
        }
        t.push_str(l.text.as_str());
        k = k + 1;
        assert(t@ =~= block_text(shown(lines@), k as nat));
    }
    t
}

impl NavPanel {
    /// Nothing calculated, nothing drawn.
    pub fn new() -> (p: NavPanel)
        ensures
            p.issues is None,
            p.overlay is None,
            !p.overlay_on,
            p.overlay_rev == 0,
    {
        NavPanel { issues: None, overlay: None, overlay_on: false, overlay_rev: 0 }
    }

    /// Whether `after` holds the findings and the overlay of `pass`.
    pub open spec fn is_calculated(
        before: NavPanel,
        pass: Option<(NavIssues, Vec<OverlayMark>)>,
        calc_ms: u64,
        metrics: NavMetrics,
        after: NavPanel,
    ) -> bool {
        &&& match pass {
            Some((i, o)) => {
                &&& after.issues == Some(NavIssues { calc_ms, ..i })
                &&& after.overlay == Some(o)
            },
            None => {
                &&& after.issues matches Some(i)
                &&& crate::nav_issues::is_nothing_found(i, calc_ms, metrics)
                &&& after.overlay matches Some(o)
                &&& o@.len() == 0
            },
        }
        &&& after.overlay_on == before.overlay_on
        &&& after.overlay_rev == before.overlay_rev + 1
    }

    /// Caches the findings and the overlay of a finished pass; `None` is a level without a
    /// grid.
    pub fn calculate_nav_issues(
        &mut self,
        pass: Option<(NavIssues, Vec<OverlayMark>)>,
        calc_ms: u64,
        metrics: NavMetrics,
    )
        requires
            old(self).overlay_rev < u32::MAX,
        ensures
            NavPanel::is_calculated(*old(self), pass, calc_ms, metrics, *final(self)),
    {
        match pass {
            Some((i, o)) => {
                let mut found: NavIssues = i;
                found.calc_ms = calc_ms;
                self.issues = Some(found);
                self.overlay = Some(o);
            },
            None => {
                let mut found: NavIssues = NavIssues::empty(metrics);
                found.calc_ms = calc_ms;
                self.issues = Some(found);
                self.overlay = Some(Vec::new());
            },
        }
        self.overlay_rev = self.overlay_rev + 1;
    }

    /// Shows or hides the overlay.
    pub fn toggle_nav_overlay(&mut self)
        requires
            old(self).overlay_rev < u32::MAX,
        ensures
            *final(self) == (NavPanel {
                overlay_on: !old(self).overlay_on,
                overlay_rev: (old(self).overlay_rev + 1) as u32,
                ..*old(self)
            }),
    {
        self.overlay_on = !self.overlay_on;
        self.overlay_rev = self.overlay_rev + 1;
    }

    /// The overlay, when it is on and something has been calculated.
    pub fn nav_overlay_mesh(&self) -> (o: Option<&Vec<OverlayMark>>)
        ensures
            o is Some <==> self.overlay_on && self.overlay is Some,
            o matches Some(v) ==> self.overlay == Some(*v),
    {
        if self.overlay_on {
            self.overlay.as_ref()
        } else {
            None
        }
    }

    /// The report as one block of text. When nothing is cached yet, the findings of `pass`
    /// are cached first.
    pub fn nav_issue_report(
        &mut self,
        pass: Option<(NavIssues, Vec<OverlayMark>)>,
        calc_ms: u64,
        metrics: NavMetrics,
    ) -> (t: String)
        requires
            old(self).issues is None ==> old(self).overlay_rev < u32::MAX,
        ensures
            old(self).issues is Some ==> *final(self) == *old(self),
            old(self).issues is None ==> NavPanel::is_calculated(
                *old(self),
                pass,
                calc_ms,
                metrics,
                *final(self),
            ),
            final(self).issues matches Some(i) && t@ == block_of(i),
    {
        if self.issues.is_none() {
            self.calculate_nav_issues(pass, calc_ms, metrics);
        }
        match &self.issues {
            Some(i) => {
                let lines: Vec<NavLine> = i.lines();
                assert(shown(lines@).len() == lines@.len());
                block(&lines)
            },
            None => String::new(),
        }
    }
}

/// The weapons that lie off the main component are listed, in order, by name and place.
pub proof fn stranded_weapons_are_listed(s: NavSurvey, n: nat)
    requires
        n <= s.pickups@.len(),
    ensures
        stranded_pickups(s, n) == s.pickups@.take(n as int).filter(|p: PickupProbe| s.main is Some && p.comp != s.main).map_values(|p: PickupProbe| OrphanView { kind: "pickup"@, label: p.weapon@, pos: p.pos }),
    decreases n,
{
    reveal(Seq::filter);
    let t = s.pickups@.take(n as int);
    if n > 0 {
        stranded_weapons_are_listed(s, (n - 1) as nat);
        assert(t.drop_last() =~= s.pickups@.take(n - 1));
        assert(t.last() == s.pickups@[n - 1]);
    } else {
        assert(t =~= Seq::empty());
    }
    assert(stranded_pickups(s, n) =~= t.filter(|p: PickupProbe| s.main is Some && p.comp != s.main).map_values(|p: PickupProbe| OrphanView { kind: "pickup"@, label: p.weapon@, pos: p.pos }));
}

/// The fixtures of a kind that stand off the main component are listed, in order, by place.
pub proof fn stranded_fixtures_are_listed(main: Option<u32>, probes: Seq<Probe>, kind: Seq<char>, label: Seq<char>, n: nat)
    requires
        n <= probes.len(),
    ensures
        stranded_probes(main, probes, kind, label, n) == probes.take(n as int).filter(|p: Probe| main is Some && p.comp != main).map_values(|p: Probe| OrphanView { kind, label, pos: p.pos }),
    decreases n,
{
    reveal(Seq::filter);
    let t = probes.take(n as int);
    if n > 0 {
        stranded_fixtures_are_listed(main, probes, kind, label, (n - 1) as nat);
        assert(t.drop_last() =~= probes.take(n - 1));
        assert(t.last() == probes[n - 1]);
    } else {
        assert(t =~= Seq::empty());
    }
    assert(stranded_probes(main, probes, kind, label, n) =~= t.filter(|p: Probe| main is Some && p.comp != main).map_values(|p: Probe| OrphanView { kind, label, pos: p.pos }));
}

/// The pads that stand off the main component are listed, in order, by number and place.
pub proof fn stranded_pads_are_listed(s: NavSurvey, n: nat)
    requires
        n <= s.pads@.len(),
    ensures
        stranded_pads(s, n) == Seq::new(s.pads@.len(), |i: int| (i, s.pads@[i])).take(
            n as int,
        ).filter(|e: (int, PadProbe)| s.main is Some && e.1.comp != s.main).map_values(
            |e: (int, PadProbe)|
                OrphanView {
                    kind: "spawn pad"@,
                    label: "pad "@ + nat_text(e.0 as nat),
                    pos: e.1.pos,
                },
        ),
    decreases n,
{
    reveal(Seq::filter);
    let both = Seq::new(s.pads@.len(), |i: int| (i, s.pads@[i]));
    let t = both.take(n as int);
    if n > 0 {
        stranded_pads_are_listed(s, (n - 1) as nat);
        assert(t.drop_last() =~= both.take(n - 1));
        assert(t.last() == both[n - 1]);
    } else {
        assert(t =~= Seq::empty());
    }
    assert(stranded_pads(s, n) =~= t.filter(
        |e: (int, PadProbe)| s.main is Some && e.1.comp != s.main,
    ).map_values(
        |e: (int, PadProbe)|
            OrphanView { kind: "spawn pad"@, label: "pad "@ + nat_text(e.0 as nat), pos: e.1.pos },
    ));
}

proof fn lemma_pad_listed(s: NavSurvey, k: int, n: nat)
    requires
        0 <= k < n <= s.pads@.len(),
        s.main is Some && s.pads@[k].comp != s.main,
    ensures
        stranded_pads(s, n).contains((OrphanView { kind: "spawn pad"@, label: "pad "@ + nat_text(k as nat), pos: s.pads@[k].pos })),
    decreases n,
{
    let e = (OrphanView { kind: "spawn pad"@, label: "pad "@ + nat_text(k as nat), pos: s.pads@[k].pos });
    let rest = stranded_pads(s, (n - 1) as nat);
    let all = stranded_pads(s, n);
    if k == n - 1 {
        assert(all[rest.len() as int] == e);
    } else {
        lemma_pad_listed(s, k, (n - 1) as nat);
        let j = choose|j: int| 0 <= j < rest.len() && rest[j] == e;
        assert(all[j] == e);
    }
}

proof fn lemma_pickup_listed(s: NavSurvey, k: int, n: nat)
    requires
        0 <= k < n <= s.pickups@.len(),
        s.main is Some && s.pickups@[k].comp != s.main,
    ensures
        stranded_pickups(s, n).contains((OrphanView { kind: "pickup"@, label: s.pickups@[k].weapon@, pos: s.pickups@[k].pos })),
    decreases n,
{
    let e = (OrphanView { kind: "pickup"@, label: s.pickups@[k].weapon@, pos: s.pickups@[k].pos });
    let rest = stranded_pickups(s, (n - 1) as nat);
    let all = stranded_pickups(s, n);
    if k == n - 1 {
        assert(all[rest.len() as int] == e);
    } else {
        lemma_pickup_listed(s, k, (n - 1) as nat);
        let j = choose|j: int| 0 <= j < rest.len() && rest[j] == e;
        assert(all[j] == e);
    }
}

proof fn lemma_probe_listed(main: Option<u32>, probes: Seq<Probe>, kind: Seq<char>, label: Seq<char>, k: int, n: nat)
    requires
        0 <= k < n <= probes.len(),
        main is Some && probes[k].comp != main,
    ensures
        stranded_probes(main, probes, kind, label, n).contains((OrphanView { kind, label, pos: probes[k].pos })),
    decreases n,
{
    let e = (OrphanView { kind, label, pos: probes[k].pos });
    let rest = stranded_probes(main, probes, kind, label, (n - 1) as nat);
    let all = stranded_probes(main, probes, kind, label, n);
    if k == n - 1 {
        assert(all[rest.len() as int] == e);
    } else {
        lemma_probe_listed(main, probes, kind, label, k, (n - 1) as nat);
        let j = choose|j: int| 0 <= j < rest.len() && rest[j] == e;
        assert(all[j] == e);
    }
}

/// Every pad, weapon, sentry gun and door that stands off the main component is an orphan of the
/// report, under its kind and name and at its place.
pub proof fn whatever_is_stranded_is_reported(s: NavSurvey, i: NavIssues, k: int)
    requires
        s.finds(i),
        s.main is Some,
    ensures
        0 <= k < s.pads@.len() && s.pads@[k].comp != s.main ==> orphans_shown(i.orphans@).contains(
            OrphanView {
                kind: "spawn pad"@,
                label: "pad "@ + nat_text(k as nat),
                pos: s.pads@[k].pos,
            },
        ),
        0 <= k < s.pickups@.len() && s.pickups@[k].comp != s.main ==> orphans_shown(
            i.orphans@,
        ).contains(
            OrphanView {
                kind: "pickup"@,
                label: s.pickups@[k].weapon@,
                pos: s.pickups@[k].pos,
            },
        ),
        0 <= k < s.turrets@.len() && s.turrets@[k].comp != s.main ==> orphans_shown(
            i.orphans@,
        ).contains(
            OrphanView { kind: "sentry gun"@, label: "turret"@, pos: s.turrets@[k].pos },
        ),
        0 <= k < s.doors@.len() && s.doors@[k].comp != s.main ==> orphans_shown(
            i.orphans@,
        ).contains(OrphanView { kind: "door"@, label: "door"@, pos: s.doors@[k].pos }),
{
    let all = orphans_shown(i.orphans@);
    let a = stranded_pads(s, s.pads@.len());
    let b = stranded_pickups(s, s.pickups@.len());
    let c = stranded_probes(s.main, s.turrets@, "sentry gun"@, "turret"@, s.turrets@.len());
    let d = stranded_probes(s.main, s.doors@, "door"@, "door"@, s.doors@.len());
    assert(all == a + b + c + d);
    if 0 <= k < s.pads@.len() && s.pads@[k].comp != s.main {
        lemma_pad_listed(s, k, s.pads@.len());
        let e = OrphanView {
            kind: "spawn pad"@,
            label: "pad "@ + nat_text(k as nat),
            pos: s.pads@[k].pos,
        };
        let j = choose|j: int| 0 <= j < a.len() && a[j] == e;
        assert(all[j] == e);
    }
    if 0 <= k < s.pickups@.len() && s.pickups@[k].comp != s.main {
        lemma_pickup_listed(s, k, s.pickups@.len());
        let e = OrphanView {
            kind: "pickup"@,
            label: s.pickups@[k].weapon@,
            pos: s.pickups@[k].pos,
        };
        let j = choose|j: int| 0 <= j < b.len() && b[j] == e;
        assert(all[a.len() + j] == e);
    }
    if 0 <= k < s.turrets@.len() && s.turrets@[k].comp != s.main {
        lemma_probe_listed(s.main, s.turrets@, "sentry gun"@, "turret"@, k, s.turrets@.len());
        let e = OrphanView { kind: "sentry gun"@, label: "turret"@, pos: s.turrets@[k].pos };
        let j = choose|j: int| 0 <= j < c.len() && c[j] == e;
        assert(all[a.len() + b.len() + j] == e);
    }
    if 0 <= k < s.doors@.len() && s.doors@[k].comp != s.main {
        lemma_probe_listed(s.main, s.doors@, "door"@, "door"@, k, s.doors@.len());
        let e = OrphanView { kind: "door"@, label: "door"@, pos: s.doors@[k].pos };
        let j = choose|j: int| 0 <= j < d.len() && d[j] == e;
        assert(all[a.len() + b.len() + c.len() + j] == e);
    }
}

/// There are as many orphans as pads, weapons, sentry guns and doors that stand off the main
/// component, and none without a main component.
pub proof fn orphans_are_counted_once(s: NavSurvey, i: NavIssues)
    requires
        s.finds(i),
    ensures
        s.main is None ==> i.orphans@.len() == 0,
        i.orphans@.len() == s.pads@.filter(|p: PadProbe| s.main is Some && p.comp != s.main).len()
            + s.pickups@.filter(|p: PickupProbe| s.main is Some && p.comp != s.main).len()
            + s.turrets@.filter(|p: Probe| s.main is Some && p.comp != s.main).len()
            + s.doors@.filter(|p: Probe| s.main is Some && p.comp != s.main).len(),
{
    lemma_pads_counted(s, s.pads@.len());
    stranded_weapons_are_listed(s, s.pickups@.len());
    stranded_fixtures_are_listed(
        s.main,
        s.turrets@,
        "sentry gun"@,
        "turret"@,
        s.turrets@.len(),
    );
    stranded_fixtures_are_listed(s.main, s.doors@, "door"@, "door"@, s.doors@.len());
    assert(s.pads@.take(s.pads@.len() as int) =~= s.pads@);
    assert(s.pickups@.take(s.pickups@.len() as int) =~= s.pickups@);
    assert(s.turrets@.take(s.turrets@.len() as int) =~= s.turrets@);
    assert(s.doors@.take(s.doors@.len() as int) =~= s.doors@);
    assert(orphans_shown(i.orphans@).len() == i.orphans@.len());
    if s.main is None {
        lemma_none_stranded(s.pads@, |p: PadProbe| s.main is Some && p.comp != s.main);
        lemma_none_stranded(s.pickups@, |p: PickupProbe| s.main is Some && p.comp != s.main);
        lemma_none_stranded(s.turrets@, |p: Probe| s.main is Some && p.comp != s.main);
        lemma_none_stranded(s.doors@, |p: Probe| s.main is Some && p.comp != s.main);
    }
}

proof fn lemma_none_stranded<T>(s: Seq<T>, pred: spec_fn(T) -> bool)
    requires
        forall|x: T| !#[trigger] pred(x),
    ensures
        s.filter(pred).len() == 0,
    decreases s.len(),
{
    reveal(Seq::filter);
    if s.len() > 0 {
        lemma_none_stranded(s.drop_last(), pred);
    }
}

proof fn lemma_pads_counted(s: NavSurvey, n: nat)
    requires
        n <= s.pads@.len(),
    ensures
        stranded_pads(s, n).len() == s.pads@.take(n as int).filter(
            |p: PadProbe| s.main is Some && p.comp != s.main,
        ).len(),
    decreases n,
{
    reveal(Seq::filter);
    let t = s.pads@.take(n as int);
    if n > 0 {
        lemma_pads_counted(s, (n - 1) as nat);
        assert(t.drop_last() =~= s.pads@.take(n - 1));
        assert(t.last() == s.pads@[n - 1]);
    }
}

/// A door is blind exactly when it marks no cell; blind doors are listed by number, in order.
pub proof fn doors_that_mark_nothing_are_blind(cells: Seq<usize>, n: nat)
    requires
        n <= cells.len() <= usize::MAX,
    ensures
        forall|k: int| 0 <= k < doors_marking_none(cells, n).len() ==> (#[trigger] doors_marking_none(cells, n)[k]) < n,
        forall|a: int, b: int|
            0 <= a < b < doors_marking_none(cells, n).len() ==> (#[trigger] doors_marking_none(cells, n)[a]) < (#[trigger] doors_marking_none(cells, n)[b]),
        forall|i: int|
            0 <= i < n ==> (#[trigger] doors_marking_none(cells, n).contains(i as usize) <==> cells[i] == 0),
    decreases n,
{
    if n > 0 {
        doors_that_mark_nothing_are_blind(cells, (n - 1) as nat);
        let rest = doors_marking_none(cells, (n - 1) as nat);
        let all = doors_marking_none(cells, n);
        
        assert forall|i: int| 0 <= i < n implies (#[trigger] all.contains(i as usize) <==> cells[i] == 0) by {
            
            if i < n - 1 {
                if rest.contains(i as usize) {
                    let k = choose|k: int| 0 <= k < rest.len() && rest[k] == i as usize;
                    assert(all[k] == i as usize);
                }
                if all.contains(i as usize) {
                    let k = choose|k: int| 0 <= k < all.len() && all[k] == i as usize;
                    assert(k < rest.len());
                    assert(rest[k] == i as usize);
                }
            } else {
                if cells[i] == 0 {
                    assert(all[rest.len() as int] == i as usize);
                }
                if all.contains(i as usize) {
                    let k = choose|k: int| 0 <= k < all.len() && all[k] == i as usize;
                    if k < rest.len() {
                        assert(rest[k] < n - 1);
                    }
                }
            }
        }
    }
}

/// The thinnest door is one of the doors, and no door marks fewer cells.
pub proof fn the_thinnest_door_marks_the_fewest_cells(cells: Seq<usize>, n: nat)
    requires
        0 < n <= cells.len(),
    ensures
        exists|k: int| 0 <= k < n && #[trigger] cells[k] == fewest(cells, n),
        forall|k: int| 0 <= k < n ==> fewest(cells, n) <= #[trigger] cells[k],
    decreases n,
{
    if n > 1 {
        the_thinnest_door_marks_the_fewest_cells(cells, (n - 1) as nat);
    } else {
        assert(cells[0] == fewest(cells, n));
    }
}

/// The pads that stay are those of the component that has the most, the one with the higher
/// number where two have as many; pads on no component give way to any.
pub proof fn the_most_pads_decide(
    comps: Seq<Option<u32>>,
    home: Option<u32>,
    other: Option<u32>,
)
    requires
        is_pad_home(comps, home),
        comps.contains(other),
    ensures
        comps.contains(home),
        ({
            let here = comps.filter(|c: Option<u32>| c == home).len();
            let there = comps.filter(|c: Option<u32>| c == other).len();
            &&& there <= here
            &&& there == here && other != home ==> home is Some && (other matches Some(c) ==> c
                < home->0)
        }),
{
    let k = choose|k: int| 0 <= k < comps.len() && comps[k] == other;
    assert(!outranks(comps, comps[k], home));
    lemma_pads_filtered(comps, home, comps.len());
    lemma_pads_filtered(comps, other, comps.len());
    assert(comps.take(comps.len() as int) =~= comps);
}

proof fn lemma_pads_filtered(comps: Seq<Option<u32>>, on: Option<u32>, n: nat)
    requires
        n <= comps.len(),
    ensures
        pads_on(comps, on, n) == comps.take(n as int).filter(|c: Option<u32>| c == on).len(),
    decreases n,
{
    reveal(Seq::filter);
    let t = comps.take(n as int);
    if n > 0 {
        lemma_pads_filtered(comps, on, (n - 1) as nat);
        assert(t.drop_last() =~= comps.take(n - 1));
        assert(t.last() == comps[n - 1]);
    }
}

/// The report names the pads that are left out by number and place: all those off the component
/// whose pads stay, in order.
pub proof fn pads_left_out_are_named(s: NavSurvey, i: NavIssues)
    requires
        s.finds(i),
        s.pads@.len() <= usize::MAX,
    ensures
        pad_comps(s.pads@).len() == s.pads@.len(),
        forall|k: int|
            0 <= k < s.pads@.len() ==> #[trigger] pad_comps(s.pads@)[k] == s.pads@[k].snapped_comp,
        exists|home: Option<u32>| #[trigger]
            is_pad_home(pad_comps(s.pads@), home) && (forall|k: int|
                0 <= k < s.pads@.len() ==> ((exists|j: int|
                    0 <= j < i.excluded_pads@.len() && (#[trigger] i.excluded_pads@[j]).0 == k)
                    <==> (#[trigger] s.pads@[k]).snapped_comp != home)) && (forall|j: int|
                0 <= j < i.excluded_pads@.len() ==> (#[trigger] i.excluded_pads@[j]).0
                    < s.pads@.len() && i.excluded_pads@[j].1
                    == s.pads@[i.excluded_pads@[j].0 as int].snapped),
{
    let comps = pad_comps(s.pads@);
    let home = choose|home: Option<u32>| #[trigger]
        is_pad_home(comps, home) && i.excluded_pads@ == pads_off(
            comps,
            home,
            s.pads@.len(),
        ).map_values(|k: usize| (k, s.pads@[k as int].snapped));
    dropped_pads_are_the_stray_ones(comps, home, comps.len());
    let off = pads_off(comps, home, s.pads@.len());
    assert forall|k: int| 0 <= k < s.pads@.len() implies ((exists|j: int|
        0 <= j < i.excluded_pads@.len() && (#[trigger] i.excluded_pads@[j]).0 == k) <==> (
    #[trigger] s.pads@[k]).snapped_comp != home) by {
        assert(comps[k] == s.pads@[k].snapped_comp);
        if off.contains(k as usize) {
            let j = choose|j: int| 0 <= j < off.len() && off[j] == k as usize;
            assert(i.excluded_pads@[j].0 == k);
        }
        if exists|j: int| 0 <= j < i.excluded_pads@.len() && (#[trigger] i.excluded_pads@[j]).0 == k {
            let j = choose|j: int|
                0 <= j < i.excluded_pads@.len() && (#[trigger] i.excluded_pads@[j]).0 == k;
            assert(off[j] == k as usize);
        }
    }
    assert forall|j: int| 0 <= j < i.excluded_pads@.len() implies (
    #[trigger] i.excluded_pads@[j]).0 < s.pads@.len() && i.excluded_pads@[j].1
        == s.pads@[i.excluded_pads@[j].0 as int].snapped by {
        assert(off[j] < comps.len());
    }
}

/// What the report says of an island is what the survey says of its component, with its share of
/// the floor in tenths of a percent, rounded to the nearest.
pub proof fn islands_are_reported_as_surveyed(s: NavSurvey, i: NavIssues, k: int)
    requires
        s.finds(i),
        s.wf(),
        0 <= k < i.islands@.len(),
        i.total_cells > 0,
    ensures
        i.islands@.len() == s.sizes@.len() - 1,
        ({
            let x = i.islands@[k];
            &&& x.id == s.sizes@[k + 1].0 && x.cells == s.sizes@[k + 1].1
            &&& (match s.gaps@[k + 1] {
                Some((c, g)) => x.gap == Some(g) && x.gap_to == Some(c),
                None => x.gap is None && x.gap_to is None,
            })
            &&& -(i.total_cells as int) <= 2 * (x.pct * i.total_cells - x.cells * 1000)
                <= i.total_cells
        }),
{
    let total = cells_in(s.sizes@, s.sizes@.len());
    let n = s.sizes@[k + 1].1 as nat * 1000;
    crate::text::rounding_goes_to_the_nearest(n, total);
    let q = round_half_even(n, total);
    lemma_share(n, total, q);
    assert(i.islands@[k] == island_of(s, k + 1));
}

proof fn lemma_share(n: nat, total: nat, q: nat)
    requires
        q == round_half_even(n, total),
        0 < total <= usize::MAX,
        n <= usize::MAX * 1000,
    ensures
        q <= u128::MAX,
{
    assert(n / total <= n) by (nonlinear_arith)
        requires
            total > 0,
    ;
}

/// The climbs that join two components, or those that do not, are kept in the order found.
pub proof fn climbs_are_sorted_by_what_they_join(s: Seq<NavClimb>, joining: bool, n: nat)
    requires
        n <= s.len(),
    ensures
        climbs_where(s, joining, n) == s.take(n as int).filter(|c: NavClimb| (c.joins is Some) == joining).map_values(|c: NavClimb| c),
    decreases n,
{
    reveal(Seq::filter);
    let t = s.take(n as int);
    if n > 0 {
        climbs_are_sorted_by_what_they_join(s, joining, (n - 1) as nat);
        assert(t.drop_last() =~= s.take(n - 1));
        assert(t.last() == s[n - 1]);
    } else {
        assert(t =~= Seq::empty());
    }
    assert(climbs_where(s, joining, n) =~= t.filter(|c: NavClimb| (c.joins is Some) == joining).map_values(|c: NavClimb| c));
}

/// Whether two places lie in one cube of two metres.
pub open spec fn in_one_cube(p: Point, q: Point) -> bool {
    p.x as int / 2000 == q.x as int / 2000 && p.y as int / 2000 == q.y as int / 2000 && p.z as int
        / 2000 == q.z as int / 2000
}

/// Representatives are items of the list, no two lie in one cube of two metres, there are no more
/// than asked for, and while there is room every item lies in a cube with one.
pub proof fn one_represents_each_cube<T: Placed>(items: Seq<T>, limit: usize, n: nat)
    requires
        n <= items.len(),
        limit > 0,
    ensures
        clustered(items, limit, n).len() <= limit,
        forall|k: int|
            0 <= k < clustered(items, limit, n).len() ==> items.contains(
                #[trigger] clustered(items, limit, n)[k],
            ),
        forall|a: int, b: int|
            0 <= a < b < clustered(items, limit, n).len() ==> !in_one_cube(
                (#[trigger] clustered(items, limit, n)[a]).spot(),
                (#[trigger] clustered(items, limit, n)[b]).spot(),
            ),
        clustered(items, limit, n).len() < limit ==> forall|i: int|
            #![trigger items[i]]
            0 <= i < n ==> exists|k: int|
                0 <= k < clustered(items, limit, n).len() && in_one_cube(
                    (#[trigger] clustered(items, limit, n)[k]).spot(),
                    items[i].spot(),
                ),
    decreases n,
{
    representatives_are_spread(items, limit, n);
    let all = clustered(items, limit, n);
    assert forall|a: int, b: int| 0 <= a < b < all.len() implies !in_one_cube(
        (#[trigger] all[a]).spot(),
        (#[trigger] all[b]).spot(),
    ) by {
        assert(cube(all[a].spot()) != cube(all[b].spot()));
    }
    if all.len() < limit {
        assert forall|i: int| #![trigger items[i]] 0 <= i < n implies exists|k: int|
            0 <= k < all.len() && in_one_cube((#[trigger] all[k]).spot(), items[i].spot()) by {
            every_place_is_represented(items, limit, n, i);
            let k = choose|k: int|
                0 <= k < all.len() && cube((#[trigger] all[k]).spot()) == cube(items[i].spot());
            assert(in_one_cube(all[k].spot(), items[i].spot()));
        }
    }
    if n > 0 {
        one_represents_each_cube(items, limit, (n - 1) as nat);
        let kept = clustered(items, limit, (n - 1) as nat);
        assert forall|k: int| 0 <= k < all.len() implies items.contains(#[trigger] all[k]) by {
            if k < kept.len() {
                assert(all[k] == kept[k]);
            } else {
                assert(all[k] == items[n - 1]);
            }
        }
    }
}

/// Corridors are represented narrowest first and climbs that reconnect something first: the first
/// representative is one that nothing in the survey goes before.
pub proof fn the_worst_is_shown_first(s: NavSurvey, i: NavIssues, k: int)
    requires
        s.finds(i),
    ensures
        0 <= k < s.pinches@.len() ==> i.pinches@.len() > 0 && i.narrowest == Some(
            i.pinches@[0].width,
        ) && i.pinches@[0].width <= s.pinches@[k].width,
        s.pinches@.len() == 0 ==> i.narrowest is None && i.pinches@.len() == 0,
        0 <= k < s.climbs@.len() && s.climbs@[k].joins is Some ==> i.climbs@.len() > 0
            && i.climbs@[0].joins is Some,
        i.pinch_cells == s.pinches@.len() && i.climb_edges == s.climbs@.len(),
{
    let w = by_width(s.pinches@);
    narrowest_comes_first(s.pinches@);
    if 0 <= k < s.pinches@.len() {
        lemma_first_kept(w, REPRESENTATIVES, w.len());
        assert(s.pinches@.to_multiset().count(s.pinches@[k]) > 0) by {
            broadcast use vstd::seq_lib::group_to_multiset_ensures;

            assert(s.pinches@.contains(s.pinches@[k]));
        }
        assert(w.contains(s.pinches@[k])) by {
            broadcast use vstd::seq_lib::group_to_multiset_ensures;

        }
        let j = choose|j: int| 0 <= j < w.len() && w[j] == s.pinches@[k];
        if j > 0 {
            assert(w[0].width <= w[j].width);
        }
    }
    let f = joining_first(s.climbs@);
    if 0 <= k < s.climbs@.len() && s.climbs@[k].joins is Some {
        lemma_climb_kept(s.climbs@, true, k, s.climbs@.len());
        lemma_climbs_right(s.climbs@, true, s.climbs@.len());
        let joined = climbs_where(s.climbs@, true, s.climbs@.len());
        assert(joined.len() > 0);
        assert(f[0] == joined[0]);
        lemma_first_kept(f, REPRESENTATIVES, f.len());
    }
}

proof fn lemma_first_kept<T: Placed>(items: Seq<T>, limit: usize, n: nat)
    requires
        0 < n <= items.len(),
    ensures
        clustered(items, limit, n).len() > 0,
        clustered(items, limit, n)[0] == items[0],
    decreases n,
{
    if n > 1 {
        lemma_first_kept(items, limit, (n - 1) as nat);
    } else {
        assert(clustered(items, limit, 0) =~= Seq::empty());
        assert(!cube_taken(clustered(items, limit, 0), items[0].spot()));
    }
}

proof fn lemma_climbs_right(s: Seq<NavClimb>, joining: bool, n: nat)
    requires
        n <= s.len(),
    ensures
        forall|k: int|
            0 <= k < climbs_where(s, joining, n).len() ==> ((#[trigger] climbs_where(
                s,
                joining,
                n,
            )[k]).joins is Some) == joining,
    decreases n,
{
    if n > 0 {
        lemma_climbs_right(s, joining, (n - 1) as nat);
    }
}

proof fn lemma_climb_kept(s: Seq<NavClimb>, joining: bool, k: int, n: nat)
    requires
        0 <= k < n <= s.len(),
        (s[k].joins is Some) == joining,
    ensures
        climbs_where(s, joining, n).contains(s[k]),
    decreases n,
{
    let e = s[k];
    let rest = climbs_where(s, joining, (n - 1) as nat);
    let all = climbs_where(s, joining, n);
    if k == n - 1 {
        assert(all[rest.len() as int] == e);
    } else {
        lemma_climb_kept(s, joining, k, (n - 1) as nat);
        let j = choose|j: int| 0 <= j < rest.len() && rest[j] == e;
        assert(all[j] == e);
    }
}

/// Floor of the main component is painted as such; floor of one of the six largest islands in
/// that island's own colour, and of any other in the shared one; corridors and climbs are marked
/// where they are, climbs that reconnect something apart from the others.
pub proof fn the_overlay_paints_what_was_found(
    s: NavSurvey,
    i: NavIssues,
    cells: Seq<(Point, u32)>,
    out: Seq<OverlayMark>,
    k: int,
    r: int,
)
    requires
        s.wf(),
        s.finds(i),
        is_overlay(cells, i, out),
        0 <= k < cells.len(),
    ensures
        out.len() == cells.len() + i.pinches@.len() + i.climbs@.len(),
        out[k].pos == cells[k].0,
        i.main == Some(cells[k].1) ==> out[k].color == NavColor::Main,
        0 <= r < i.islands@.len() && i.islands@[r].id == cells[k].1 && r < 6 ==> out[k].color
            == NavColor::Island(r as usize),
        0 <= r < i.islands@.len() && i.islands@[r].id == cells[k].1 && r >= 6 ==> out[k].color
            == NavColor::Tail,
        0 <= r < i.pinches@.len() ==> out[cells.len() + r] == (OverlayMark {
            pos: i.pinches@[r].pos,
            color: NavColor::Pinch,
        }),
        0 <= r < i.climbs@.len() ==> out[cells.len() + i.pinches@.len() + r] == (OverlayMark {
            pos: i.climbs@[r].from,
            color: if i.climbs@[r].joins is Some {
                NavColor::Join
            } else {
                NavColor::Climb
            },
        }),
{
    if 0 <= r < i.islands@.len() && i.islands@[r].id == cells[k].1 {
        no_island_is_the_main_floor(s, i, r, out[k].color);
        islands_come_largest_first(s, i);
        assert(is_rank(i.islands@, cells[k].1, r));
        assert(is_cell_color(i, cells[k].1, out[k].color));
        if let NavColor::Island(q) = out[k].color {
            assert(is_rank(i.islands@, cells[k].1, q as int));
        }
    }
}

/// The faults of a report are its lines marked as errors.
pub proof fn faults_are_the_errors(lines: Seq<LineView>, n: nat)
    requires
        n <= lines.len(),
    ensures
        faults_in(lines, n) == lines.take(n as int).filter(
            |l: LineView| l.sev == NavSeverity::Error,
        ).len(),
    decreases n,
{
    reveal(Seq::filter);
    let t = lines.take(n as int);
    if n > 0 {
        faults_are_the_errors(lines, (n - 1) as nat);
        assert(t.drop_last() =~= lines.take(n - 1));
        assert(t.last() == lines[n - 1]);
    }
}

/// The report as text has one line for each of its lines, in order, an error marked with two
/// exclamation marks, a warning with one, and anything else with none.
pub proof fn the_block_has_every_line(lines: Seq<LineView>, n: nat)
    requires
        n < lines.len(),
    ensures
        ({
            let l = lines[n as int];
            let mark = if l.sev == NavSeverity::Error {
                "!! "@
            } else if l.sev == NavSeverity::Warn {
                " ! "@
            } else {
                "   "@
            };
            &&& n == 0 ==> block_text(lines, 1) == mark + l.text
            &&& n > 0 ==> block_text(lines, n + 1) == block_text(lines, n) + "\n"@ + mark + l.text
        }),
        block_text(lines, 0).len() == 0,
{
}

/// A calculation shows what its pass found with the time it took, or nothing at all where there
/// was no floor; it leaves the overlay on or off as it was.
pub proof fn a_calculation_shows_what_it_found(
    before: NavPanel,
    pass: Option<(NavIssues, Vec<OverlayMark>)>,
    calc_ms: u64,
    metrics: NavMetrics,
    after: NavPanel,
)
    requires
        NavPanel::is_calculated(before, pass, calc_ms, metrics, after),
    ensures
        after.overlay_on == before.overlay_on && after.overlay_rev == before.overlay_rev + 1,
        after.issues is Some && after.overlay is Some && (after.issues->0).calc_ms == calc_ms,
        pass matches Some((i, o)) ==> {
            let s = after.issues->0;
            &&& s == (NavIssues { calc_ms: s.calc_ms, ..i })
            &&& after.overlay == Some(o)
        },
        pass is None ==> {
            let s = after.issues->0;
            &&& s.total_cells == 0 && s.components == 0 && s.main is None && s.main_cells == 0
            &&& s.islands@.len() == 0 && s.orphans@.len() == 0 && s.excluded_pads@.len() == 0
            &&& s.pinch_cells == 0 && s.pinches@.len() == 0 && s.narrowest is None
            &&& s.blind_doors@.len() == 0 && s.door_count == 0 && s.thinnest_door == 0
            &&& s.climb_edges == 0 && s.joining_climbs == 0 && s.climbs@.len() == 0
            &&& s.metrics == metrics
            &&& (after.overlay->0)@.len() == 0
        },
{
}

} // verus!
