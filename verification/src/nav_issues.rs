//! The navigation report: which floor is cut off, what is stranded on it, and where a
//! hunter's body does not fit.
use vstd::prelude::*;

use crate::space::Point;
use crate::text::{
    metres1, metres2, nat_text, percent_text, push_metres1, push_metres2, push_nat, push_percent,
    push_tenths, tenths_text,
};

verus! {

/// How loud a finding is.
#[derive(Clone, Copy, PartialEq, Eq, Debug, Structural)]
pub enum NavSeverity {
    /// A clean verdict, stated out loud.
    Clean,
    /// Context; true, and not a problem.
    Info,
    /// Worth looking at; may be deliberate.
    Warn,
    /// Something cannot be reached or cannot be walked.
    Error,
}

/// One line of the report.
pub struct NavLine {
    pub text: String,
    pub sev: NavSeverity,
}

/// The contents of a [`NavLine`].
pub struct LineView {
    pub text: Seq<char>,
    pub sev: NavSeverity,
}

impl View for NavLine {
    type V = LineView;

    open spec fn view(&self) -> LineView {
        LineView { text: self.text@, sev: self.sev }
    }
}

/// The closest approach between two pieces of floor: the horizontal distance, and the rise
/// from the first to the second.
#[derive(Clone, Copy, PartialEq, Eq, Debug, Structural)]
pub struct NavGap {
    pub from: Point,
    pub flat: i32,
    pub rise: i32,
}

/// A walkable component that is not the main one.
#[derive(Clone, Copy, PartialEq, Eq, Debug, Structural)]
pub struct NavIsland {
    pub id: u32,
    pub cells: usize,
    /// Share of all standable floor, in tenths of a percent.
    pub pct: u128,
    /// The closest approach to the nearest other component, and which one that is.
    pub gap: Option<NavGap>,
    pub gap_to: Option<u32>,
}

/// An authored object nobody can walk to.
pub struct NavOrphan {
    pub kind: &'static str,
    pub label: String,
    pub pos: Point,
}

/// The contents of a [`NavOrphan`].
pub struct OrphanView {
    pub kind: Seq<char>,
    pub label: Seq<char>,
    pub pos: Point,
}

impl View for NavOrphan {
    type V = OrphanView;

    open spec fn view(&self) -> OrphanView {
        OrphanView { kind: self.kind@, label: self.label@, pos: self.pos }
    }
}

/// A cell in a corridor too narrow for a hunter, and the corridor's width there.
#[derive(Clone, Copy, PartialEq, Eq, Debug, Structural)]
pub struct NavPinch {
    pub pos: Point,
    pub width: i32,
}

/// A step that the player can take and a hunter cannot, with the two components that it
/// would join when it would join two.
#[derive(Clone, Copy, PartialEq, Eq, Debug)]
pub struct NavClimb {
    pub from: Point,
    pub rise: i32,
    pub joins: Option<(u32, u32)>,
}

/// The grid's own measures: a cell's side, the tallest step a hunter climbs, and the height
/// the player jumps.
#[derive(Clone, Copy, PartialEq, Eq, Debug, Structural)]
pub struct NavMetrics {
    pub cell: i32,
    pub max_step: i32,
    pub jump_apex: i32,
}

/// Half the width of a hunter's body.
pub const ENEMY_RADIUS: i32 = 240;

/// Spacing between reported representatives: one per cube of this side.
pub const CLUSTER: i32 = 2000;

/// How many representatives of each class are kept.
pub const REPRESENTATIVES: usize = 6;

/// How many islands are listed one by one.
pub const ISLANDS_LISTED: usize = 8;

/// How many stranded objects are listed one by one.
pub const ORPHANS_LISTED: usize = 10;

impl NavMetrics {
    /// A corridor narrower than this cannot hold a body on the grid line: cell centres come
    /// half a cell from a wall at the closest.
    pub open spec fn tight(self) -> int {
        2 * ENEMY_RADIUS + self.cell
    }

    /// The lowest step that a hunter cannot take.
    pub open spec fn over_step(self) -> int {
        self.max_step + self.cell
    }

    fn tight_mm(&self) -> (mm: i64)
        ensures
            mm == self.tight(),
    {
        2 * (ENEMY_RADIUS as i64) + self.cell as i64
    }

    fn over_step_mm(&self) -> (mm: i64)
        ensures
            mm == self.over_step(),
    {
        self.max_step as i64 + self.cell as i64
    }
}

/// A corridor narrower than this cannot hold a hunter's body at all.
pub open spec fn pinch_block() -> int {
    2 * ENEMY_RADIUS
}

/// Everything the report knows, computed in one pass off one grid.
pub struct NavIssues {
    /// How long the pass took, in milliseconds.
    pub calc_ms: u64,
    pub total_cells: usize,
    /// Number of walkable components.
    pub components: usize,
    /// The largest component: "the level".
    pub main: Option<u32>,
    pub main_cells: usize,
    pub islands: Vec<NavIsland>,
    pub orphans: Vec<NavOrphan>,
    /// Spawn pads that a hunt will drop, by index.
    pub excluded_pads: Vec<(usize, Point)>,
    /// Cells in a corridor too narrow for a body, and one representative per cube.
    pub pinch_cells: usize,
    pub pinches: Vec<NavPinch>,
    /// The narrowest corridor, when there is a narrow one.
    pub narrowest: Option<i32>,
    /// Doors that mark no cell.
    pub blind_doors: Vec<usize>,
    pub door_count: usize,
    /// The fewest cells that any door marks.
    pub thinnest_door: usize,
    pub climb_edges: usize,
    pub joining_climbs: usize,
    pub climbs: Vec<NavClimb>,
    pub metrics: NavMetrics,
}

// ---- The report's text ----

/// A point as it is written in the report.
pub open spec fn at_text(p: Point) -> Seq<char> {
    "("@ + metres1(p.x as int) + ", "@ + metres1(p.y as int) + ", "@ + metres1(p.z as int) + ")"@
}

/// How the neighbour across a gap is named.
pub open spec fn near_text(gap_to: Option<u32>, main: Option<u32>) -> Seq<char> {
    match gap_to {
        None => "the rest"@,
        Some(c) => if main == Some(c) {
            "the level"@
        } else {
            "island comp "@ + nat_text(c as nat)
        },
    }
}

/// What would close a step of height `rise`.
pub open spec fn fix_text(rise: nat, m: NavMetrics) -> Seq<char> {
    if rise <= m.over_step() + 1 {
        " — one step too tall for a hunter"@
    } else if rise <= m.jump_apex + 1 {
        " — you jump this, hunters cannot"@
    } else {
        " — a drop, not a step: it needs stairs"@
    }
}

/// What separates an island from its nearest neighbour.
pub open spec fn gap_text(isl: NavIsland, main: Option<u32>, m: NavMetrics) -> Seq<char> {
    match isl.gap {
        None => "no measurable gap"@,
        Some(g) => {
            let near = near_text(isl.gap_to, main);
            if g.flat > 2 * m.cell {
                metres1(g.flat as int) + " m from "@ + near + " ("@ + metres2(g.rise as int, true)
                    + " m rise) at "@ + at_text(g.from)
                    + " — a distance, not a step: it needs a bridge or a floor"@
            } else {
                let rise = crate::text::magnitude(g.rise as int);
                let side = if g.rise < 0 {
                    " m above "@
                } else {
                    " m below "@
                };
                metres2(rise as int, false) + side + near + " at "@ + at_text(g.from) + fix_text(
                    rise,
                    m,
                )
            }
        },
    }
}

/// The report's line on one island.
pub open spec fn island_text(isl: NavIsland, main: Option<u32>, m: NavMetrics) -> Seq<char> {
    "island comp "@ + nat_text(isl.id as nat) + ": "@ + nat_text(isl.cells as nat) + " cells ("@
        + tenths_text(isl.pct as nat) + "%) — "@ + gap_text(isl, main, m)
}

pub open spec fn said(sev: NavSeverity, text: Seq<char>) -> LineView {
    LineView { text, sev }
}

/// The verdict on connectivity that the report leads with.
pub open spec fn verdict_lines(i: NavIssues) -> Seq<LineView> {
    if i.components == 1 {
        seq![
            said(
                NavSeverity::Clean,
                "1 walkable component — all "@ + nat_text(i.total_cells as nat)
                    + " cells of floor connect"@,
            ),
        ]
    } else {
        seq![
            said(
                NavSeverity::Error,
                nat_text(i.components as nat) + " walkable components — "@ + percent_text(
                    i.total_cells - i.main_cells,
                    i.total_cells as nat,
                ) + "% of the floor is cut off from the rest"@,
            ),
            said(
                NavSeverity::Info,
                "main: "@ + nat_text(i.main_cells as nat) + " cells ("@ + percent_text(
                    i.main_cells as int,
                    i.total_cells as nat,
                ) + "%)"@,
            ),
        ]
    }
}

/// One line per island, for the first `n`.
pub open spec fn island_lines(i: NavIssues, n: nat) -> Seq<LineView>
    decreases n,
{
    if n == 0 {
        Seq::empty()
    } else {
        island_lines(i, (n - 1) as nat).push(
            said(NavSeverity::Error, island_text(i.islands@[n - 1], i.main, i.metrics)),
        )
    }
}

pub open spec fn more_islands_lines(i: NavIssues) -> Seq<LineView> {
    if i.islands@.len() > ISLANDS_LISTED {
        seq![
            said(
                NavSeverity::Info,
                "… and "@ + nat_text((i.islands@.len() - ISLANDS_LISTED) as nat)
                    + " more islands"@,
            ),
        ]
    } else {
        Seq::empty()
    }
}

pub open spec fn orphan_text(o: OrphanView) -> Seq<char> {
    "  "@ + o.kind + " "@ + o.label + " at "@ + at_text(o.pos)
}

/// One line per stranded object, for the first `n`.
pub open spec fn orphan_lines(i: NavIssues, n: nat) -> Seq<LineView>
    decreases n,
{
    if n == 0 {
        Seq::empty()
    } else {
        orphan_lines(i, (n - 1) as nat).push(
            said(NavSeverity::Error, orphan_text(i.orphans@[n - 1]@)),
        )
    }
}

pub open spec fn at_most(n: nat, limit: usize) -> nat {
    if n < limit {
        n
    } else {
        limit as nat
    }
}

pub open spec fn stranded_lines(i: NavIssues) -> Seq<LineView> {
    if i.orphans@.len() == 0 {
        seq![said(NavSeverity::Clean, "0 orphaned objects — everything authored is reachable"@)]
    } else {
        seq![
            said(
                NavSeverity::Error,
                nat_text(i.orphans@.len()) + " authored object(s) nobody can walk to:"@,
            ),
        ] + orphan_lines(i, at_most(i.orphans@.len(), ORPHANS_LISTED))
    }
}

pub open spec fn excluded_text(p: (usize, Point)) -> Seq<char> {
    "G will IGNORE pad "@ + nat_text(p.0 as nat) + " at "@ + at_text(p.1)
        + " — on an island, so anyone spawning there is stranded"@
}

/// One line per dropped pad, for the first `n`.
pub open spec fn excluded_lines(i: NavIssues, n: nat) -> Seq<LineView>
    decreases n,
{
    if n == 0 {
        Seq::empty()
    } else {
        excluded_lines(i, (n - 1) as nat).push(
            said(NavSeverity::Warn, excluded_text(i.excluded_pads@[n - 1])),
        )
    }
}

/// The first `n` numbers of a list, separated by commas.
pub open spec fn listed(s: Seq<usize>, n: nat) -> Seq<char>
    decreases n,
{
    if n == 0 {
        ""@
    } else if n == 1 {
        ""@ + nat_text(s[0] as nat)
    } else {
        listed(s, (n - 1) as nat) + ", "@ + nat_text(s[n - 1] as nat)
    }
}

pub open spec fn door_lines(i: NavIssues) -> Seq<LineView> {
    if i.blind_doors@.len() > 0 {
        seq![
            said(
                NavSeverity::Error,
                nat_text(i.blind_doors@.len())
                    + " door(s) mark NO nav cells and are invisible to pathing — hunters                      walk through them: ["@
                    + listed(i.blind_doors@, i.blind_doors@.len()) + "]"@,
            ),
        ]
    } else if i.door_count > 0 {
        seq![
            said(
                NavSeverity::Clean,
                nat_text(i.door_count as nat) + " door(s) on the grid, thinnest marks "@ + nat_text(
                    i.thinnest_door as nat,
                ) + " cell(s) — all visible to pathing"@,
            ),
        ]
    } else {
        Seq::empty()
    }
}

/// How bad the narrow corridors are.
pub open spec fn pinch_severity(i: NavIssues) -> NavSeverity {
    match i.narrowest {
        Some(w) => if w < pinch_block() {
            NavSeverity::Error
        } else {
            NavSeverity::Warn
        },
        None => NavSeverity::Warn,
    }
}

pub open spec fn narrowest_text(w: Option<i32>) -> Seq<char> {
    match w {
        Some(w) => metres2(w as int, false),
        None => "inf"@,
    }
}

pub open spec fn pinch_text(p: NavPinch) -> Seq<char> {
    "  "@ + metres2(p.width as int, false) + " m wide at "@ + at_text(p.pos)
}

/// One line per representative corridor, for the first `n`.
pub open spec fn pinch_lines(i: NavIssues, n: nat) -> Seq<LineView>
    decreases n,
{
    if n == 0 {
        Seq::empty()
    } else {
        pinch_lines(i, (n - 1) as nat).push(
            said(pinch_severity(i), pinch_text(i.pinches@[n - 1])),
        )
    }
}

pub open spec fn corridor_lines(i: NavIssues) -> Seq<LineView> {
    if i.pinch_cells == 0 {
        seq![
            said(
                NavSeverity::Clean,
                "no corridor narrower than "@ + metres2(i.metrics.tight(), false) + " m"@,
            ),
        ]
    } else {
        seq![
            said(
                pinch_severity(i),
                nat_text(i.pinch_cells as nat) + " cell(s) in corridors under "@ + metres2(
                    i.metrics.tight(),
                    false,
                ) + " m — narrowest "@ + narrowest_text(i.narrowest) + " m (a hunter's body is "@
                    + metres2(pinch_block(), false) + " m across)"@,
            ),
        ] + pinch_lines(i, i.pinches@.len())
    }
}

pub open spec fn climb_text(c: NavClimb) -> Seq<char> {
    "  "@ + metres2(c.rise as int, false) + " m step at "@ + at_text(c.from) + " → joins comp "@
        + nat_text(joined_by(c) as nat)
}

/// The component on the far side of a climb that joins two, zero for one that joins none.
pub open spec fn joined_by(c: NavClimb) -> u32 {
    match c.joins {
        Some((_, b)) => b,
        None => 0,
    }
}

/// One line per climb that would reconnect a cut-off area, among the first `n`.
pub open spec fn joining_lines(i: NavIssues, n: nat) -> Seq<LineView>
    decreases n,
{
    if n == 0 {
        Seq::empty()
    } else {
        let rest = joining_lines(i, (n - 1) as nat);
        let c = i.climbs@[n - 1];
        if c.joins is Some {
            rest.push(said(NavSeverity::Error, climb_text(c)))
        } else {
            rest
        }
    }
}

pub open spec fn reconnect_lines(i: NavIssues) -> Seq<LineView> {
    if i.joining_climbs > 0 {
        seq![
            said(
                NavSeverity::Error,
                nat_text(i.joining_climbs as nat)
                    + " of them would RECONNECT a cut-off area — these are the ones to fix"@,
            ),
        ]
    } else {
        Seq::empty()
    }
}

pub open spec fn climb_lines(i: NavIssues) -> Seq<LineView> {
    if i.climb_edges == 0 {
        Seq::empty()
    } else {
        seq![
            said(
                NavSeverity::Info,
                nat_text(i.climb_edges as nat) + " player-only climb(s) "@ + metres2(
                    i.metrics.over_step(),
                    false,
                ) + "–"@ + metres2(i.metrics.jump_apex as int, false)
                    + " m: the player walks or jumps these, hunters cannot"@,
            ),
        ] + reconnect_lines(i) + joining_lines(i, i.climbs@.len())
    }
}

pub open spec fn timing_line(i: NavIssues) -> LineView {
    said(NavSeverity::Info, "calculated in "@ + nat_text(i.calc_ms as nat) + " ms"@)
}

/// The whole report.
pub open spec fn report_lines(i: NavIssues) -> Seq<LineView> {
    if i.total_cells == 0 {
        seq![said(NavSeverity::Error, "no walkable floor at all — nothing baked"@)]
    } else {
        (verdict_lines(i) + island_lines(i, at_most(i.islands@.len(), ISLANDS_LISTED))
            + more_islands_lines(i) + stranded_lines(i) + excluded_lines(i, i.excluded_pads@.len())
            + door_lines(i) + corridor_lines(i) + climb_lines(i)).push(timing_line(i))
    }
}

/// The contents of a list of lines.
pub open spec fn shown(lines: Seq<NavLine>) -> Seq<LineView> {
    lines.map_values(|l: NavLine| l@)
}

fn say(out: &mut Vec<NavLine>, sev: NavSeverity, text: String)
    ensures
        shown(final(out)@) == shown(old(out)@).push(said(sev, text@)),
{
    out.push(NavLine { text, sev });
    assert(shown(out@) =~= shown(old(out)@).push(said(sev, text@)));
}

fn push_at(out: &mut String, p: Point)
    ensures
        final(out)@ == old(out)@ + at_text(p),
{
    out.push_str("(");
    push_metres1(out, p.x as i64);
    out.push_str(", ");
    push_metres1(out, p.y as i64);
    out.push_str(", ");
    push_metres1(out, p.z as i64);
    out.push_str(")");
    assert(out@ =~= old(out)@ + at_text(p));
}

fn push_near(out: &mut String, gap_to: Option<u32>, main: Option<u32>)
    ensures
        final(out)@ == old(out)@ + near_text(gap_to, main),
{
    match gap_to {
        None => {
            out.push_str("the rest");
        },
        Some(c) => {
            let home: bool = match main {
                Some(m) => m == c,
                None => false,
            };
            if home {
                out.push_str("the level");
            } else {
                out.push_str("island comp ");
                push_nat(out, c as u128);
                assert(out@ =~= old(out)@ + near_text(gap_to, main));
            }
        },
    }
}

fn push_gap(out: &mut String, isl: &NavIsland, main: Option<u32>, m: &NavMetrics)
    ensures
        final(out)@ == old(out)@ + gap_text(*isl, main, *m),
{
    match isl.gap {
        None => {
            out.push_str("no measurable gap");
        },
        Some(g) => {
            if g.flat as i64 > 2 * (m.cell as i64) {
                push_metres1(out, g.flat as i64);
                out.push_str(" m from ");
                push_near(out, isl.gap_to, main);
                out.push_str(" (");
                push_metres2(out, g.rise as i64, true);
                out.push_str(" m rise) at ");
                push_at(out, g.from);
                out.push_str(" — a distance, not a step: it needs a bridge or a floor");
            } else {
                let signed: i64 = g.rise as i64;
                let rise: i64 = if signed < 0 {
                    -signed
                } else {
                    signed
                };
                push_metres2(out, rise, false);
                if g.rise < 0 {
                    out.push_str(" m above ");
                } else {
                    out.push_str(" m below ");
                }
                push_near(out, isl.gap_to, main);
                out.push_str(" at ");
                push_at(out, g.from);
                if rise <= m.over_step_mm() + 1 {
                    out.push_str(" — one step too tall for a hunter");
                } else if rise <= m.jump_apex as i64 + 1 {
                    out.push_str(" — you jump this, hunters cannot");
                } else {
                    out.push_str(" — a drop, not a step: it needs stairs");
                }
            }
            assert(out@ =~= old(out)@ + gap_text(*isl, main, *m));
        },
    }
}

/// Whether `i` is what is found of a level without a grid.
pub open spec fn is_nothing_found(i: NavIssues, calc_ms: u64, metrics: NavMetrics) -> bool {
    &&& i.calc_ms == calc_ms
    &&& i.total_cells == 0
    &&& i.components == 0
    &&& i.main is None
    &&& i.main_cells == 0
    &&& i.islands@.len() == 0
    &&& i.orphans@.len() == 0
    &&& i.excluded_pads@.len() == 0
    &&& i.pinch_cells == 0
    &&& i.pinches@.len() == 0
    &&& i.narrowest is None
    &&& i.blind_doors@.len() == 0
    &&& i.door_count == 0
    &&& i.thinnest_door == 0
    &&& i.climb_edges == 0
    &&& i.joining_climbs == 0
    &&& i.climbs@.len() == 0
    &&& i.metrics == metrics
}

impl NavIssues {
    /// Whether the level is clean on connectivity.
    pub fn is_connected(&self) -> (b: bool)
        ensures
            b == (self.components == 1 && self.orphans@.len() == 0),
    {
        self.components == 1 && self.orphans.len() == 0
    }

    /// A level with no grid at all: reported, not hidden.
    pub fn empty(metrics: NavMetrics) -> (i: NavIssues)
        ensures
            is_nothing_found(i, 0, metrics),
    {
        NavIssues {
            calc_ms: 0,
            total_cells: 0,
            components: 0,
            main: None,
            main_cells: 0,
            islands: Vec::new(),
            orphans: Vec::new(),
            excluded_pads: Vec::new(),
            pinch_cells: 0,
            pinches: Vec::new(),
            narrowest: None,
            blind_doors: Vec::new(),
            door_count: 0,
            thinnest_door: 0,
            climb_edges: 0,
            joining_climbs: 0,
            climbs: Vec::new(),
            metrics,
        }
    }

    fn say_verdict(&self, out: &mut Vec<NavLine>)
        requires
            self.total_cells > 0,
        ensures
            shown(final(out)@) == shown(old(out)@) + verdict_lines(*self),
    {
        if self.components == 1 {
            let mut t: String = "1 walkable component — all ".to_owned();
            push_nat(&mut t, self.total_cells as u128);
            t.push_str(" cells of floor connect");
            say(out, NavSeverity::Clean, t);
        } else {
            let mut t: String = String::new();
            push_nat(&mut t, self.components as u128);
            assert(t@ =~= nat_text(self.components as nat));
            t.push_str(" walkable components — ");
            push_percent(
                &mut t,
                self.total_cells as i128 - self.main_cells as i128,
                self.total_cells as u64,
            );
            t.push_str("% of the floor is cut off from the rest");
            say(out, NavSeverity::Error, t);
            let mut u: String = "main: ".to_owned();
            push_nat(&mut u, self.main_cells as u128);
            u.push_str(" cells (");
            push_percent(&mut u, self.main_cells as i128, self.total_cells as u64);
            u.push_str("%)");
            say(out, NavSeverity::Info, u);
        }
        assert(shown(out@) =~= shown(old(out)@) + verdict_lines(*self));
    }

    fn say_islands(&self, out: &mut Vec<NavLine>)
        ensures
            shown(final(out)@) == shown(old(out)@) + island_lines(
                *self,
                at_most(self.islands@.len(), ISLANDS_LISTED),
            ) + more_islands_lines(*self),
    {
        let n: usize = if self.islands.len() < ISLANDS_LISTED {
            self.islands.len()
        } else {
            ISLANDS_LISTED
        };
        let mut k: usize = 0;
        assert(shown(out@) =~= shown(old(out)@) + island_lines(*self, 0));
        while k < n
            invariant
                k <= n <= self.islands@.len(),
                shown(out@) == shown(old(out)@) + island_lines(*self, k as nat),
            decreases n - k,
        {
            let isl: NavIsland = self.islands[k];
            let mut t: String = "island comp ".to_owned();
            push_nat(&mut t, isl.id as u128);
            t.push_str(": ");
            push_nat(&mut t, isl.cells as u128);
            t.push_str(" cells (");
            push_tenths(&mut t, isl.pct);
            t.push_str("%) — ");
            push_gap(&mut t, &isl, self.main, &self.metrics);
            say(out, NavSeverity::Error, t);
            k = k + 1;
            assert(shown(out@) =~= shown(old(out)@) + island_lines(*self, k as nat));
        }
        if self.islands.len() > ISLANDS_LISTED {
            let mut t: String = "… and ".to_owned();
            push_nat(&mut t, (self.islands.len() - ISLANDS_LISTED) as u128);
            t.push_str(" more islands");
            say(out, NavSeverity::Info, t);
        }
        assert(shown(out@) =~= shown(old(out)@) + island_lines(*self, n as nat)
            + more_islands_lines(*self));
    }

    fn say_stranded(&self, out: &mut Vec<NavLine>)
        ensures
            shown(final(out)@) == shown(old(out)@) + stranded_lines(*self),
    {
        if self.orphans.len() == 0 {
            say(
                out,
                NavSeverity::Clean,
                "0 orphaned objects — everything authored is reachable".to_owned(),
            );
        } else {
            let mut t: String = String::new();
            push_nat(&mut t, self.orphans.len() as u128);
            assert(t@ =~= nat_text(self.orphans@.len()));
            t.push_str(" authored object(s) nobody can walk to:");
            say(out, NavSeverity::Error, t);
            let n: usize = if self.orphans.len() < ORPHANS_LISTED {
                self.orphans.len()
            } else {
                ORPHANS_LISTED
            };
            let ghost head = shown(out@);
            let mut k: usize = 0;
            assert(shown(out@) =~= head + orphan_lines(*self, 0));
            while k < n
                invariant
                    k <= n <= self.orphans@.len(),
                    shown(out@) == head + orphan_lines(*self, k as nat),
                decreases n - k,
            {
                let o: &NavOrphan = &self.orphans[k];
                let mut t: String = "  ".to_owned();
                t.push_str(o.kind);
                t.push_str(" ");
                t.push_str(o.label.as_str());
                t.push_str(" at ");
                push_at(&mut t, o.pos);
                say(out, NavSeverity::Error, t);
                k = k + 1;
                assert(shown(out@) =~= head + orphan_lines(*self, k as nat));
            }
        }
        assert(shown(out@) =~= shown(old(out)@) + stranded_lines(*self));
    }

    fn say_excluded(&self, out: &mut Vec<NavLine>)
        ensures
            shown(final(out)@) == shown(old(out)@) + excluded_lines(
                *self,
                self.excluded_pads@.len(),
            ),
    {
        let mut k: usize = 0;
        assert(shown(out@) =~= shown(old(out)@) + excluded_lines(*self, 0));
        while k < self.excluded_pads.len()
            invariant
                k <= self.excluded_pads@.len(),
                shown(out@) == shown(old(out)@) + excluded_lines(*self, k as nat),
            decreases self.excluded_pads@.len() - k,
        {
            let p: (usize, Point) = self.excluded_pads[k];
            let mut t: String = "G will IGNORE pad ".to_owned();
            push_nat(&mut t, p.0 as u128);
            t.push_str(" at ");
            push_at(&mut t, p.1);
            t.push_str(" — on an island, so anyone spawning there is stranded");
            say(out, NavSeverity::Warn, t);
            k = k + 1;
            assert(shown(out@) =~= shown(old(out)@) + excluded_lines(*self, k as nat));
        }
    }

    fn say_doors(&self, out: &mut Vec<NavLine>)
        ensures
            shown(final(out)@) == shown(old(out)@) + door_lines(*self),
    {
        if self.blind_doors.len() > 0 {
            let mut t: String = String::new();
            push_nat(&mut t, self.blind_doors.len() as u128);
            assert(t@ =~= nat_text(self.blind_doors@.len()));
            t.push_str(
                " door(s) mark NO nav cells and are invisible to pathing — hunters                      walk through them: [",
            );
            let ghost head = t@;
            let mut k: usize = 0;
            proof {
                reveal_strlit("");
            }
            assert(t@ =~= head + listed(self.blind_doors@, 0));
            while k < self.blind_doors.len()
                invariant
                    k <= self.blind_doors@.len(),
                    t@ == head + listed(self.blind_doors@, k as nat),
                decreases self.blind_doors@.len() - k,
            {
                if k > 0 {
                    t.push_str(", ");
                }
                push_nat(&mut t, self.blind_doors[k] as u128);
                k = k + 1;
                assert(t@ =~= head + listed(self.blind_doors@, k as nat));
            }
            t.push_str("]");
            assert(t@ =~= door_lines(*self)[0].text);
            say(out, NavSeverity::Error, t);
        } else if self.door_count > 0 {
            let mut t: String = String::new();
            push_nat(&mut t, self.door_count as u128);
            assert(t@ =~= nat_text(self.door_count as nat));
            t.push_str(" door(s) on the grid, thinnest marks ");
            push_nat(&mut t, self.thinnest_door as u128);
            t.push_str(" cell(s) — all visible to pathing");
            say(out, NavSeverity::Clean, t);
        }
        assert(shown(out@) =~= shown(old(out)@) + door_lines(*self));
    }

    fn severity_of_pinches(&self) -> (s: NavSeverity)
        ensures
            s == pinch_severity(*self),
    {
        match self.narrowest {
            Some(w) => if w < 2 * ENEMY_RADIUS {
                NavSeverity::Error
            } else {
                NavSeverity::Warn
            },
            None => NavSeverity::Warn,
        }
    }

    fn say_corridors(&self, out: &mut Vec<NavLine>)
        ensures
            shown(final(out)@) == shown(old(out)@) + corridor_lines(*self),
    {
        if self.pinch_cells == 0 {
            let mut t: String = "no corridor narrower than ".to_owned();
            push_metres2(&mut t, self.metrics.tight_mm(), false);
            t.push_str(" m");
            say(out, NavSeverity::Clean, t);
        } else {
            let sev: NavSeverity = self.severity_of_pinches();
            let mut t: String = String::new();
            push_nat(&mut t, self.pinch_cells as u128);
            assert(t@ =~= nat_text(self.pinch_cells as nat));
            t.push_str(" cell(s) in corridors under ");
            push_metres2(&mut t, self.metrics.tight_mm(), false);
            t.push_str(" m — narrowest ");
            match self.narrowest {
                Some(w) => {
                    push_metres2(&mut t, w as i64, false);
                },
                None => {
                    t.push_str("inf");
                },
            }
            t.push_str(" m (a hunter's body is ");
            push_metres2(&mut t, 2 * (ENEMY_RADIUS as i64), false);
            t.push_str(" m across)");
            say(out, sev, t);
            let ghost head = shown(out@);
            let mut k: usize = 0;
            assert(shown(out@) =~= head + pinch_lines(*self, 0));
            while k < self.pinches.len()
                invariant
                    k <= self.pinches@.len(),
                    sev == pinch_severity(*self),
                    shown(out@) == head + pinch_lines(*self, k as nat),
                decreases self.pinches@.len() - k,
            {
                let p: NavPinch = self.pinches[k];
                let mut t: String = "  ".to_owned();
                push_metres2(&mut t, p.width as i64, false);
                t.push_str(" m wide at ");
                push_at(&mut t, p.pos);
                say(out, sev, t);
                k = k + 1;
                assert(shown(out@) =~= head + pinch_lines(*self, k as nat));
            }
        }
        assert(shown(out@) =~= shown(old(out)@) + corridor_lines(*self));
    }

    fn say_climbs(&self, out: &mut Vec<NavLine>)
        ensures
            shown(final(out)@) == shown(old(out)@) + climb_lines(*self),
    {
        if self.climb_edges > 0 {
            let mut t: String = String::new();
            push_nat(&mut t, self.climb_edges as u128);
            assert(t@ =~= nat_text(self.climb_edges as nat));
            t.push_str(" player-only climb(s) ");
            push_metres2(&mut t, self.metrics.over_step_mm(), false);
            t.push_str("–");
            push_metres2(&mut t, self.metrics.jump_apex as i64, false);
            t.push_str(" m: the player walks or jumps these, hunters cannot");
            say(out, NavSeverity::Info, t);
            if self.joining_climbs > 0 {
                let mut t: String = String::new();
                push_nat(&mut t, self.joining_climbs as u128);
                assert(t@ =~= nat_text(self.joining_climbs as nat));
                t.push_str(" of them would RECONNECT a cut-off area — these are the ones to fix");
                say(out, NavSeverity::Error, t);
            }
            let ghost head = shown(out@);
            let mut k: usize = 0;
            assert(shown(out@) =~= head + joining_lines(*self, 0));
            while k < self.climbs.len()
                invariant
                    k <= self.climbs@.len(),
                    shown(out@) == head + joining_lines(*self, k as nat),
                decreases self.climbs@.len() - k,
            {
                let c: NavClimb = self.climbs[k];
                match c.joins {
                    Some((_, b)) => {
                        let mut t: String = "  ".to_owned();
                        push_metres2(&mut t, c.rise as i64, false);
                        t.push_str(" m step at ");
                        push_at(&mut t, c.from);
                        t.push_str(" → joins comp ");
                        push_nat(&mut t, b as u128);
                        say(out, NavSeverity::Error, t);
                    },
                    None => {},
                }
                k = k + 1;
                assert(shown(out@) =~= head + joining_lines(*self, k as nat));
            }
        }
        assert(shown(out@) =~= shown(old(out)@) + climb_lines(*self));
    }

    /// The whole report as lines.
    pub fn lines(&self) -> (out: Vec<NavLine>)
        ensures
            shown(out@) == report_lines(*self),
    {
        let mut out: Vec<NavLine> = Vec::new();
        assert(shown(out@) =~= Seq::empty());
        if self.total_cells == 0 {
            say(
                &mut out,
                NavSeverity::Error,
                "no walkable floor at all — nothing baked".to_owned(),
            );
            assert(shown(out@) =~= report_lines(*self));
            return out;
        }
        self.say_verdict(&mut out);
        assert(shown(out@) =~= verdict_lines(*self));
        self.say_islands(&mut out);
        self.say_stranded(&mut out);
        self.say_excluded(&mut out);
        self.say_doors(&mut out);
        self.say_corridors(&mut out);
        self.say_climbs(&mut out);
        let mut t: String = "calculated in ".to_owned();
        push_nat(&mut t, self.calc_ms as u128);
        t.push_str(" ms");
        say(&mut out, NavSeverity::Info, t);
        assert(shown(out@) =~= report_lines(*self));
        out
    }
}

// ---- Laws of the report ----

/// Whether no line of `l` reports a fault.
pub open spec fn no_fault(l: Seq<LineView>) -> bool {
    forall|k: int| 0 <= k < l.len() ==> (#[trigger] l[k]).sev != NavSeverity::Error
}

/// Whether the findings hold nothing that is wrong with the level.
pub open spec fn is_clean(i: NavIssues) -> bool {
    &&& i.total_cells > 0
    &&& i.components == 1
    &&& i.islands@.len() == 0
    &&& i.orphans@.len() == 0
    &&& i.blind_doors@.len() == 0
    &&& i.pinch_cells > 0 ==> !(pinch_severity(i) is Error)
    &&& i.joining_climbs == 0
    &&& forall|k: int| 0 <= k < i.climbs@.len() ==> (#[trigger] i.climbs@[k]).joins is None
}

proof fn lemma_warnings_are_no_fault(i: NavIssues, n: nat)
    ensures
        no_fault(excluded_lines(i, n)),
        !(pinch_severity(i) is Error) ==> no_fault(pinch_lines(i, n)),
        (forall|k: int| 0 <= k < n ==> (#[trigger] i.climbs@[k]).joins is None) ==> joining_lines(
            i,
            n,
        ).len() == 0,
    decreases n,
{
    if n > 0 {
        lemma_warnings_are_no_fault(i, (n - 1) as nat);
    }
}

proof fn lemma_no_fault_joins(a: Seq<LineView>, b: Seq<LineView>)
    requires
        no_fault(a),
        no_fault(b),
    ensures
        no_fault(a + b),
{
    assert forall|k: int| 0 <= k < (a + b).len() implies (#[trigger] (a + b)[k]).sev
        != NavSeverity::Error by {
        if k < a.len() {
            assert((a + b)[k] == a[k]);
        } else {
            assert((a + b)[k] == b[k - a.len()]);
        }
    }
}

/// A clean level says so out loud: the first line is the clean verdict, and no line reports a
/// fault.
pub proof fn a_clean_level_says_so(i: NavIssues)
    requires
        is_clean(i),
    ensures
        report_lines(i)[0].sev == NavSeverity::Clean,
        no_fault(report_lines(i)),
{
    let p0 = verdict_lines(i);
    let p1 = island_lines(i, 0);
    let p2 = more_islands_lines(i);
    let p3 = stranded_lines(i);
    let p4 = excluded_lines(i, i.excluded_pads@.len());
    let p5 = door_lines(i);
    let p6 = corridor_lines(i);
    let p7 = climb_lines(i);
    lemma_warnings_are_no_fault(i, i.excluded_pads@.len());
    lemma_warnings_are_no_fault(i, i.pinches@.len());
    lemma_warnings_are_no_fault(i, i.climbs@.len());
    assert(no_fault(p3));
    assert(no_fault(p5));
    if i.pinch_cells > 0 {
        lemma_no_fault_joins(seq![p6[0]], pinch_lines(i, i.pinches@.len()));
        assert(p6 =~= seq![p6[0]] + pinch_lines(i, i.pinches@.len()));
    }
    assert(no_fault(p6));
    assert(reconnect_lines(i).len() == 0);
    assert(no_fault(p7));
    lemma_no_fault_joins(p0, p1);
    lemma_no_fault_joins(p0 + p1, p2);
    lemma_no_fault_joins(p0 + p1 + p2, p3);
    lemma_no_fault_joins(p0 + p1 + p2 + p3, p4);
    lemma_no_fault_joins(p0 + p1 + p2 + p3 + p4, p5);
    lemma_no_fault_joins(p0 + p1 + p2 + p3 + p4 + p5, p6);
    lemma_no_fault_joins(p0 + p1 + p2 + p3 + p4 + p5 + p6, p7);
    let all = p0 + p1 + p2 + p3 + p4 + p5 + p6 + p7;
    assert(report_lines(i) == all.push(timing_line(i)));
    assert forall|k: int| 0 <= k < report_lines(i).len() implies (#[trigger] report_lines(i)[k]).sev
        != NavSeverity::Error by {
        if k < all.len() {
            assert(report_lines(i)[k] == all[k]);
        }
    }
}

/// Floor that is cut off, or no floor at all, is reported as a fault in the very first line.
pub proof fn a_broken_level_says_so(i: NavIssues)
    requires
        i.total_cells == 0 || i.components != 1,
    ensures
        report_lines(i)[0].sev == NavSeverity::Error,
{
}

/// The report is never empty.
pub proof fn the_report_is_never_silent(i: NavIssues)
    ensures
        report_lines(i).len() > 0,
{
}

/// Each island that is listed has a line of its own, in order: it names the component, its size
/// and share, and how far it is from what it should join.
pub proof fn each_island_has_a_line(i: NavIssues, n: nat, k: int)
    requires
        0 <= k < n <= i.islands@.len(),
    ensures
        island_lines(i, n).len() == n,
        ({
            let isl = i.islands@[k];
            island_lines(i, n)[k] == (LineView {
                text: "island comp "@ + nat_text(isl.id as nat) + ": "@ + nat_text(isl.cells as nat)
                    + " cells ("@ + tenths_text(isl.pct as nat) + "%) — "@ + gap_text(
                    isl,
                    i.main,
                    i.metrics,
                ),
                sev: NavSeverity::Error,
            })
        }),
    decreases n,
{
    reveal_with_fuel(island_lines, 2);
    if k < n - 1 {
        each_island_has_a_line(i, (n - 1) as nat, k);
    } else if n > 1 {
        each_island_has_a_line(i, (n - 1) as nat, 0);
    }
}

/// Each orphan that is listed has a line of its own, in order, with what it is and where it is.
pub proof fn each_orphan_has_a_line(i: NavIssues, n: nat, k: int)
    requires
        0 <= k < n <= i.orphans@.len(),
    ensures
        orphan_lines(i, n).len() == n,
        ({
            let o = i.orphans@[k];
            orphan_lines(i, n)[k] == (LineView {
                text: "  "@ + o.kind@ + " "@ + o.label@ + " at "@ + at_text(o.pos),
                sev: NavSeverity::Error,
            })
        }),
    decreases n,
{
    reveal_with_fuel(orphan_lines, 2);
    if k < n - 1 {
        each_orphan_has_a_line(i, (n - 1) as nat, k);
    } else if n > 1 {
        each_orphan_has_a_line(i, (n - 1) as nat, 0);
    }
}

/// Each pad that is left out has a warning of its own, in order.
pub proof fn each_pad_left_out_has_a_warning(i: NavIssues, n: nat, k: int)
    requires
        0 <= k < n <= i.excluded_pads@.len(),
    ensures
        excluded_lines(i, n).len() == n,
        excluded_lines(i, n)[k] == (LineView {
            text: "G will IGNORE pad "@ + nat_text(i.excluded_pads@[k].0 as nat) + " at "@
                + at_text(i.excluded_pads@[k].1)
                + " — on an island, so anyone spawning there is stranded"@,
            sev: NavSeverity::Warn,
        }),
    decreases n,
{
    reveal_with_fuel(excluded_lines, 2);
    if k < n - 1 {
        each_pad_left_out_has_a_warning(i, (n - 1) as nat, k);
    } else if n > 1 {
        each_pad_left_out_has_a_warning(i, (n - 1) as nat, 0);
    }
}

/// Each pinch has a line of its own, in order; it is an error where the narrowest is narrower than
/// a body, 0.48 m, and a warning otherwise.
pub proof fn each_pinch_has_a_line(i: NavIssues, n: nat, k: int)
    requires
        0 <= k < n <= i.pinches@.len(),
    ensures
        pinch_lines(i, n).len() == n,
        pinch_lines(i, n)[k] == (LineView {
            text: "  "@ + metres2(i.pinches@[k].width as int, false) + " m wide at "@ + at_text(
                i.pinches@[k].pos,
            ),
            sev: if i.narrowest is Some && i.narrowest->0 < 480 {
                NavSeverity::Error
            } else {
                NavSeverity::Warn
            },
        }),
    decreases n,
{
    reveal_with_fuel(pinch_lines, 2);
    if k < n - 1 {
        each_pinch_has_a_line(i, (n - 1) as nat, k);
    } else if n > 1 {
        each_pinch_has_a_line(i, (n - 1) as nat, 0);
    }
}

/// The climbs that have lines of their own are exactly those that would join two components, in
/// order.
pub proof fn each_joining_climb_has_a_line(i: NavIssues, n: nat)
    requires
        n <= i.climbs@.len(),
    ensures
        joining_lines(i, n) == i.climbs@.take(n as int).filter(
            |c: NavClimb| c.joins is Some,
        ).map_values(
            |c: NavClimb|
                LineView {
                    text: "  "@ + metres2(c.rise as int, false) + " m step at "@ + at_text(c.from)
                        + " → joins comp "@ + nat_text((c.joins->0).1 as nat),
                    sev: NavSeverity::Error,
                },
        ),
    decreases n,
{
    reveal(Seq::filter);
    let t = i.climbs@.take(n as int);
    if n > 0 {
        each_joining_climb_has_a_line(i, (n - 1) as nat);
        assert(t.drop_last() =~= i.climbs@.take(n - 1));
        assert(t.last() == i.climbs@[n - 1]);
    } else {
        assert(t =~= Seq::empty());
    }
    assert(joining_lines(i, n) =~= t.filter(|c: NavClimb| c.joins is Some).map_values(
        |c: NavClimb|
            LineView {
                text: "  "@ + metres2(c.rise as int, false) + " m step at "@ + at_text(c.from)
                    + " → joins comp "@ + nat_text((c.joins->0).1 as nat),
                sev: NavSeverity::Error,
            },
    ));
}

/// Doors are listed by number, with a comma between two.
pub proof fn doors_are_listed_by_number(s: Seq<usize>, n: nat)
    requires
        1 <= n < s.len(),
    ensures
        listed(s, 0).len() == 0,
        listed(s, 1) == nat_text(s[0] as nat),
        listed(s, n + 1) == listed(s, n) + ", "@ + nat_text(s[n as int] as nat),
{
    reveal_strlit("");
    assert(listed(s, 1) =~= nat_text(s[0] as nat));
}

/// What is said of a gap: far away on the floor plan it wants a bridge; a rise of one step more
/// than a hunter takes is one step too tall, one within a jump is for the player alone, and any
/// higher one wants stairs. The island lies above what it should join where the way there goes
/// down.
pub proof fn gaps_are_told_apart(isl: NavIsland, main: Option<u32>, m: NavMetrics, g: NavGap)
    requires
        isl.gap == Some(g),
    ensures
        ({
            let near = if isl.gap_to is None {
                "the rest"@
            } else if main == isl.gap_to {
                "the level"@
            } else {
                "island comp "@ + nat_text(isl.gap_to->0 as nat)
            };
            let rise = if g.rise < 0 {
                -g.rise
            } else {
                g.rise as int
            };
            let fix = if rise <= m.max_step + m.cell + 1 {
                " — one step too tall for a hunter"@
            } else if rise <= m.jump_apex + 1 {
                " — you jump this, hunters cannot"@
            } else {
                " — a drop, not a step: it needs stairs"@
            };
            &&& g.flat > 2 * m.cell ==> gap_text(isl, main, m) == metres1(g.flat as int)
                + " m from "@ + near + " ("@ + metres2(g.rise as int, true) + " m rise) at "@
                + at_text(g.from) + " — a distance, not a step: it needs a bridge or a floor"@
            &&& g.flat <= 2 * m.cell && g.rise < 0 ==> gap_text(isl, main, m) == metres2(
                rise,
                false,
            ) + " m above "@ + near + " at "@ + at_text(g.from) + fix
            &&& g.flat <= 2 * m.cell && g.rise >= 0 ==> gap_text(isl, main, m) == metres2(
                rise,
                false,
            ) + " m below "@ + near + " at "@ + at_text(g.from) + fix
        }),
{
}

/// What the report of a level with floor holds, in order: the verdict on its components, up to
/// eight islands and how many more there are, what is stranded with up to ten of it, the pads left
/// out, the doors, the corridors, the climbs, and last the time it took.
pub proof fn the_report_leaves_nothing_out(i: NavIssues, l: LineView)
    requires
        i.total_cells > 0,
    ensures
        report_lines(i).contains(l) <==> {
            let islands = if i.islands@.len() < 8 {
                i.islands@.len()
            } else {
                8
            };
            ||| verdict_lines(i).contains(l)
            ||| island_lines(i, islands).contains(l)
            ||| more_islands_lines(i).contains(l)
            ||| stranded_lines(i).contains(l)
            ||| excluded_lines(i, i.excluded_pads@.len()).contains(l)
            ||| door_lines(i).contains(l)
            ||| corridor_lines(i).contains(l)
            ||| climb_lines(i).contains(l)
            ||| l == (LineView {
                text: "calculated in "@ + nat_text(i.calc_ms as nat) + " ms"@,
                sev: NavSeverity::Info,
            })
        },
        report_lines(i).last() == (LineView {
            text: "calculated in "@ + nat_text(i.calc_ms as nat) + " ms"@,
            sev: NavSeverity::Info,
        }),
{
    let p0 = verdict_lines(i);
    let p1 = island_lines(i, at_most(i.islands@.len(), ISLANDS_LISTED));
    let p2 = more_islands_lines(i);
    let p3 = stranded_lines(i);
    let p4 = excluded_lines(i, i.excluded_pads@.len());
    let p5 = door_lines(i);
    let p6 = corridor_lines(i);
    let p7 = climb_lines(i);
    lemma_in_either(p0, p1, l);
    lemma_in_either(p0 + p1, p2, l);
    lemma_in_either(p0 + p1 + p2, p3, l);
    lemma_in_either(p0 + p1 + p2 + p3, p4, l);
    lemma_in_either(p0 + p1 + p2 + p3 + p4, p5, l);
    lemma_in_either(p0 + p1 + p2 + p3 + p4 + p5, p6, l);
    lemma_in_either(p0 + p1 + p2 + p3 + p4 + p5 + p6, p7, l);
    let all = p0 + p1 + p2 + p3 + p4 + p5 + p6 + p7;
    lemma_in_either(all, seq![timing_line(i)], l);
    assert(seq![timing_line(i)].contains(l) <==> l == timing_line(i)) by {
        assert(seq![timing_line(i)][0] == timing_line(i));
    }
    assert(report_lines(i) =~= all + seq![timing_line(i)]);
}

proof fn lemma_in_either(a: Seq<LineView>, b: Seq<LineView>, l: LineView)
    ensures
        (a + b).contains(l) <==> a.contains(l) || b.contains(l),
{
    if a.contains(l) {
        let k = choose|k: int| 0 <= k < a.len() && a[k] == l;
        assert((a + b)[k] == l);
    }
    if b.contains(l) {
        let k = choose|k: int| 0 <= k < b.len() && b[k] == l;
        assert((a + b)[a.len() as int + k] == l);
    }
    if (a + b).contains(l) {
        let k = choose|k: int| 0 <= k < (a + b).len() && (a + b)[k] == l;
        if k < a.len() {
            assert(a[k] == l);
        } else {
            assert(b[k - a.len()] == l);
        }
    }
}

/// The verdict, the count of islands left unlisted, what is stranded, the doors, the corridors and
/// the climbs are each said with the gravity they have.
pub proof fn each_part_of_the_report_has_its_gravity(i: NavIssues)
    ensures
        i.components == 1 ==> verdict_lines(i).len() == 1 && verdict_lines(i)[0].sev
            == NavSeverity::Clean,
        i.components != 1 ==> verdict_lines(i).len() == 2 && verdict_lines(i)[0].sev
            == NavSeverity::Error && verdict_lines(i)[1].sev == NavSeverity::Info,
        i.islands@.len() <= 8 ==> more_islands_lines(i).len() == 0,
        i.islands@.len() > 8 ==> more_islands_lines(i) == seq![
            LineView {
                text: "… and "@ + nat_text((i.islands@.len() - 8) as nat) + " more islands"@,
                sev: NavSeverity::Info,
            },
        ],
        i.orphans@.len() == 0 ==> stranded_lines(i).len() == 1 && stranded_lines(i)[0].sev
            == NavSeverity::Clean,
        i.orphans@.len() > 0 ==> stranded_lines(i)[0] == (LineView {
            text: nat_text(i.orphans@.len()) + " authored object(s) nobody can walk to:"@,
            sev: NavSeverity::Error,
        }) && stranded_lines(i).skip(1) == orphan_lines(
            i,
            if i.orphans@.len() < 10 {
                i.orphans@.len()
            } else {
                10
            },
        ),
        i.blind_doors@.len() > 0 ==> door_lines(i).len() == 1 && door_lines(i)[0].sev
            == NavSeverity::Error,
        i.blind_doors@.len() == 0 && i.door_count > 0 ==> door_lines(i).len() == 1 && door_lines(
            i,
        )[0].sev == NavSeverity::Clean,
        i.blind_doors@.len() == 0 && i.door_count == 0 ==> door_lines(i).len() == 0,
        i.pinch_cells == 0 ==> corridor_lines(i).len() == 1 && corridor_lines(i)[0].sev
            == NavSeverity::Clean,
        i.pinch_cells > 0 ==> corridor_lines(i)[0].sev == (if i.narrowest is Some
            && i.narrowest->0 < 480 {
            NavSeverity::Error
        } else {
            NavSeverity::Warn
        }) && corridor_lines(i).skip(1) == pinch_lines(i, i.pinches@.len()),
        i.climb_edges == 0 ==> climb_lines(i).len() == 0,
        i.climb_edges > 0 ==> climb_lines(i)[0].sev == NavSeverity::Info,
        i.climb_edges > 0 && i.joining_climbs > 0 ==> climb_lines(i)[1].sev == NavSeverity::Error
            && climb_lines(i).skip(2) == joining_lines(i, i.climbs@.len()),
        i.climb_edges > 0 && i.joining_climbs == 0 ==> climb_lines(i).skip(1) == joining_lines(
            i,
            i.climbs@.len(),
        ),
{
    if i.orphans@.len() > 0 {
        assert(stranded_lines(i).skip(1) =~= orphan_lines(
            i,
            at_most(i.orphans@.len(), ORPHANS_LISTED),
        ));
    }
    if i.pinch_cells > 0 {
        assert(corridor_lines(i).skip(1) =~= pinch_lines(i, i.pinches@.len()));
    }
    if i.climb_edges > 0 {
        let head = if i.joining_climbs > 0 {
            2int
        } else {
            1int
        };
        assert(climb_lines(i).skip(head) =~= joining_lines(i, i.climbs@.len()));
    }
}

} // verus!
