//! The dials and switches of a hunt, and the bodies that hunters can wear.
use vstd::prelude::*;

use crate::hunter::AiMode;
use crate::text::{nat_text, push_nat};

verus! {

/// Top of the difficulty dial.
pub const DIFFICULTY_MAX: u32 = 10;

/// Ceiling of the wave-size dial.
pub const WAVE_SIZE_MAX: usize = 16;

/// How many hunters a wave has unless it is set.
pub const ENEMY_COUNT: usize = 1;

/// The wave size that the application sets when it starts.
pub const PLAYTEST_WAVE_SIZE: usize = 4;

/// Which bodies a wave draws from.
#[derive(Clone, Copy, PartialEq, Eq, Debug, Structural)]
pub enum BodySet {
    All,
    GoldenEye,
    PerfectDark,
}

impl Default for BodySet {
    fn default() -> (b: BodySet)
        ensures
            b == BodySet::All,
    {
        BodySet::All
    }
}

#[derive(Clone, Copy, PartialEq, Eq, Debug, Structural)]
pub struct Settings {
    pub difficulty: u32,
    pub wave_size: usize,
    pub body_set: BodySet,
    /// Puts GoldenEye bodies back on their own clips.
    pub goldeneye_clips: bool,
    pub pd_lab: bool,
    /// The simulant tier, when it does not follow the dial.
    pub tier: Option<u8>,
    pub hit_reactions: bool,
    pub authored_reactions: bool,
    pub local_avoidance: bool,
    pub head_look: bool,
    pub foot_ik: bool,
    pub ragdoll: bool,
    pub wall_clearance: bool,
    pub utility_ai: bool,
    pub pd_omniscience: bool,
    pub grenades: bool,
    pub ai_mode: AiMode,
    pub spawn_enemies: bool,
    pub hunters_enabled: bool,
    pub unarmed_hunters: bool,
    pub anim_debug: bool,
}

/// What the difficulty dial does, in thousandths.
#[derive(Clone, Copy, PartialEq, Eq, Debug, Structural)]
pub struct DiffParams {
    pub speed_mult: u32,
    pub cooldown_mult: u32,
    pub reaction_mult: u32,
    pub health_mult: u32,
    pub dodge: u32,
    pub sense_mult: u32,
    pub suppress: u32,
    pub flank: u32,
    pub cover: u32,
}

/// The linear ramp from all-neutral at zero to brutal at the top of the dial.
pub open spec fn ramp(difficulty: u32) -> DiffParams {
    DiffParams {
        speed_mult: (1000 + 50 * difficulty) as u32,
        cooldown_mult: (1000 - 85 * difficulty) as u32,
        reaction_mult: (1000 - 80 * difficulty) as u32,
        health_mult: (1000 + 300 * difficulty) as u32,
        dodge: (100 * difficulty) as u32,
        sense_mult: (1000 + 40 * difficulty) as u32,
        suppress: (100 * difficulty) as u32,
        flank: (100 * difficulty) as u32,
        cover: (100 * difficulty) as u32,
    }
}

/// Which simulant a hunter is: a fixed tier, or the one at a fraction of the dial.
#[derive(Clone, Copy, PartialEq, Eq, Debug, Structural)]
pub enum Tier {
    Fixed(u8),
    /// Thousandths of the dial.
    Dial(u32),
}

/// What the hunters' decisions read, in thousandths of the baseline.
#[derive(Clone, Copy, PartialEq, Eq, Debug, Structural)]
pub struct AiTuning {
    pub alert: u32,
    pub cooldown: u32,
    pub dodge: u32,
    pub speed_mult: u32,
    pub sense: u32,
    pub suppress: u32,
    pub flank: u32,
    pub cover: u32,
    pub mode: AiMode,
    pub tier: Tier,
}

/// A knob that Perfect Dark's model does not have.
pub open spec fn unless_pd(mode: AiMode, v: u32) -> u32 {
    if mode == AiMode::Pd {
        0
    } else {
        v
    }
}

pub open spec fn clamp_to(v: int, lo: int, hi: int) -> int {
    if v < lo {
        lo
    } else if v > hi {
        hi
    } else {
        v
    }
}

impl Settings {
    /// The dials stand where they can be read.
    pub open spec fn wf(self) -> bool {
        self.difficulty <= DIFFICULTY_MAX && self.wave_size >= 1
    }

    pub open spec fn tier_now(self) -> Tier {
        match self.tier {
            Some(t) => Tier::Fixed(t),
            None => Tier::Dial((100 * self.difficulty) as u32),
        }
    }

    pub open spec fn tuning(self) -> AiTuning {
        let d = ramp(self.difficulty);
        AiTuning {
            alert: d.reaction_mult,
            cooldown: d.cooldown_mult,
            dodge: unless_pd(self.ai_mode, d.dodge),
            speed_mult: d.speed_mult,
            sense: d.sense_mult,
            suppress: unless_pd(self.ai_mode, d.suppress),
            flank: unless_pd(self.ai_mode, d.flank),
            cover: unless_pd(self.ai_mode, d.cover),
            mode: self.ai_mode,
            tier: self.tier_now(),
        }
    }

    pub fn new(ai_mode: AiMode, unarmed_hunters: bool, anim_debug: bool) -> (s: Settings)
        ensures
            s.wf(),
            s == (Settings {
                difficulty: 0,
                wave_size: ENEMY_COUNT,
                body_set: BodySet::All,
                goldeneye_clips: false,
                pd_lab: false,
                tier: None,
                hit_reactions: false,
                authored_reactions: true,
                local_avoidance: true,
                head_look: true,
                foot_ik: true,
                ragdoll: true,
                wall_clearance: true,
                utility_ai: true,
                pd_omniscience: true,
                grenades: false,
                ai_mode,
                spawn_enemies: true,
                hunters_enabled: true,
                unarmed_hunters,
                anim_debug,
            }),
    {
        Settings {
            difficulty: 0,
            wave_size: ENEMY_COUNT,
            body_set: BodySet::All,
            goldeneye_clips: false,
            pd_lab: false,
            tier: None,
            hit_reactions: false,
            authored_reactions: true,
            local_avoidance: true,
            head_look: true,
            foot_ik: true,
            ragdoll: true,
            wall_clearance: true,
            utility_ai: true,
            pd_omniscience: true,
            grenades: false,
            ai_mode,
            spawn_enemies: true,
            hunters_enabled: true,
            unarmed_hunters,
            anim_debug,
        }
    }

    /// What the difficulty dial does at its present position.
    pub fn difficulty_params(&self) -> (d: DiffParams)
        requires
            self.wf(),
        ensures
            d == ramp(self.difficulty),
    {
        let t: u32 = self.difficulty;
        DiffParams {
            speed_mult: 1000 + 50 * t,
            cooldown_mult: 1000 - 85 * t,
            reaction_mult: 1000 - 80 * t,
            health_mult: 1000 + 300 * t,
            dodge: 100 * t,
            sense_mult: 1000 + 40 * t,
            suppress: 100 * t,
            flank: 100 * t,
            cover: 100 * t,
        }
    }

    /// What the hunters' decisions read. Perfect Dark's model has no dodging, no suppressing
    /// fire, no flanking and no cover.
    pub fn ai_tuning(&self) -> (t: AiTuning)
        requires
            self.wf(),
        ensures
            t == self.tuning(),
    {
        let d: DiffParams = self.difficulty_params();
        let pd: bool = self.ai_mode == AiMode::Pd;
        AiTuning {
            alert: d.reaction_mult,
            cooldown: d.cooldown_mult,
            dodge: if pd {
                0
            } else {
                d.dodge
            },
            speed_mult: d.speed_mult,
            sense: d.sense_mult,
            suppress: if pd {
                0
            } else {
                d.suppress
            },
            flank: if pd {
                0
            } else {
                d.flank
            },
            cover: if pd {
                0
            } else {
                d.cover
            },
            mode: self.ai_mode,
            tier: match self.tier {
                Some(t) => Tier::Fixed(t),
                None => Tier::Dial(100 * self.difficulty),
            },
        }
    }

    /// Turns the simulant laboratory on: its own wave size, tier, and Perfect Dark bodies.
    pub fn enable_pd_lab(&mut self, count: usize, tier: Option<u8>)
        ensures
            *final(self) == (Settings {
                wave_size: if count == 0 {
                    1
                } else {
                    count
                },
                tier,
                pd_lab: true,
                body_set: BodySet::PerfectDark,
                ..*old(self)
            }),
            old(self).wf() ==> final(self).wf(),
    {
        self.wave_size = if count == 0 {
            1
        } else {
            count
        };
        self.tier = tier;
        self.pd_lab = true;
        self.body_set = BodySet::PerfectDark;
    }

    /// Sets the number of hunters of the next wave, as far as the dial goes.
    pub fn set_wave_size(&mut self, n: usize)
        ensures
            *final(self) == (Settings {
                wave_size: clamp_to(n as int, 1, WAVE_SIZE_MAX as int) as usize,
                ..*old(self)
            }),
            old(self).wf() ==> final(self).wf(),
    {
        self.wave_size = if n < 1 {
            1
        } else if n > WAVE_SIZE_MAX {
            WAVE_SIZE_MAX
        } else {
            n
        };
    }

    /// Where the wave-size dial stands after a nudge.
    pub fn nudged_wave_size(&self, delta: i32) -> (n: usize)
        ensures
            n == clamp_to(self.wave_size + delta, 1, WAVE_SIZE_MAX as int),
    {
        let to: i128 = self.wave_size as i128 + delta as i128;
        if to < 1 {
            1
        } else if to > WAVE_SIZE_MAX as i128 {
            WAVE_SIZE_MAX
        } else {
            to as usize
        }
    }

    /// The settings with the difficulty dial turned.
    pub(crate) fn at_difficulty(self, to: u32) -> (s: Settings)
        ensures
            s == (Settings { difficulty: to, ..self }),
    {
        Settings { difficulty: to, ..self }
    }

    /// The settings with the wave-size dial turned.
    pub(crate) fn at_wave_size(self, to: usize) -> (s: Settings)
        ensures
            s == (Settings { wave_size: to, ..self }),
    {
        Settings { wave_size: to, ..self }
    }

    /// Where the difficulty dial stands after a nudge.
    pub fn nudged_difficulty(&self, delta: i32) -> (n: u32)
        ensures
            n == clamp_to(self.difficulty + delta, 0, DIFFICULTY_MAX as int),
    {
        let to: i64 = self.difficulty as i64 + delta as i64;
        if to < 0 {
            0
        } else if to > DIFFICULTY_MAX as i64 {
            DIFFICULTY_MAX
        } else {
            to as u32
        }
    }
}

/// The dial makes every hunter harder, never easier.
pub proof fn a_higher_dial_is_harder(lo: u32, hi: u32)
    requires
        lo <= hi <= DIFFICULTY_MAX,
    ensures
        ramp(lo).speed_mult <= ramp(hi).speed_mult,
        ramp(lo).cooldown_mult >= ramp(hi).cooldown_mult,
        ramp(lo).reaction_mult >= ramp(hi).reaction_mult,
        ramp(lo).health_mult <= ramp(hi).health_mult,
        ramp(lo).dodge <= ramp(hi).dodge,
        ramp(lo).sense_mult <= ramp(hi).sense_mult,
        ramp(lo).suppress <= ramp(hi).suppress,
        ramp(lo).flank <= ramp(hi).flank,
        ramp(lo).cover <= ramp(hi).cover,
{
}

/// Switching the engagement model changes only the knobs that Perfect Dark does not have, and
/// switching back restores them.
pub proof fn the_model_is_a_switch(s: Settings)
    ensures
        (Settings { ai_mode: AiMode::Pd, ..s }).tuning() == (AiTuning {
            dodge: 0,
            suppress: 0,
            flank: 0,
            cover: 0,
            mode: AiMode::Pd,
            ..(Settings { ai_mode: AiMode::Ours, ..s }).tuning()
        }),
        (Settings { ai_mode: s.ai_mode, ..(Settings { ai_mode: AiMode::Pd, ..s }) }).tuning()
            == s.tuning(),
{
}

// ---- Bodies ----

/// The bodies that were loaded: the GoldenEye family first, then the Perfect Dark one, with
/// their standing heights, and which clip sets were loaded for which rig.
pub struct Bodies {
    pub ge_count: usize,
    pub count: usize,
    /// Heights in millimetres, by body.
    pub heights: Vec<u32>,
    /// GoldenEye clips on the GoldenEye rig.
    pub ge_template: bool,
    /// Perfect Dark clips on the Perfect Dark rig.
    pub pd_template: bool,
    /// Perfect Dark clips on the GoldenEye rig.
    pub pd_template_ge: bool,
}

/// Which clips drive a body, and on which rig.
#[derive(Clone, Copy, PartialEq, Eq, Debug, Structural)]
pub struct Clips {
    /// The Perfect Dark rig, as opposed to the GoldenEye one.
    pub pd_rig: bool,
    /// The Perfect Dark clips, as opposed to the GoldenEye ones.
    pub pd_clips: bool,
}

/// The height that hit boxes and hit zones are measured for.
pub const CAPSULE_REF_HEIGHT: u32 = 1500;

/// A range of body ids, the end excluded.
#[derive(Clone, Copy, PartialEq, Eq, Debug, Structural)]
pub struct BodyRange {
    pub first: usize,
    pub end: usize,
}

impl BodyRange {
    pub open spec fn holds(self, body: int) -> bool {
        self.first <= body < self.end
    }

    pub open spec fn is_empty(self) -> bool {
        self.first >= self.end
    }

    pub open spec fn count(self) -> int {
        if self.first >= self.end {
            0
        } else {
            self.end - self.first
        }
    }
}

/// What loaded of the first `n` entries of a catalogue.
pub open spec fn present(heights: Seq<Option<u32>>, n: nat) -> Seq<u32>
    decreases n,
{
    if n == 0 {
        Seq::empty()
    } else {
        let rest = present(heights, (n - 1) as nat);
        match heights[n - 1] {
            Some(h) => rest.push(h),
            None => rest,
        }
    }
}

fn push_present(heights: &Vec<Option<u32>>, out: &mut Vec<u32>)
    ensures
        final(out)@ == old(out)@ + present(heights@, heights@.len()),
{
    let mut k: usize = 0;
    assert(out@ =~= old(out)@ + present(heights@, 0));
    while k < heights.len()
        invariant
            k <= heights@.len(),
            out@ == old(out)@ + present(heights@, k as nat),
        decreases heights@.len() - k,
    {
        match heights[k] {
            Some(h) => {
                out.push(h);
            },
            None => {},
        }
        k = k + 1;
        assert(out@ =~= old(out)@ + present(heights@, k as nat));
    }
}

impl Bodies {
    pub open spec fn wf(self) -> bool {
        self.ge_count <= self.count
    }

    /// The bodies of two catalogues, given the height of each that loaded, and whether each
    /// clip set loaded whole. Clips are bound to the first body of a family, so a family
    /// without a body has none.
    pub fn load(
        ge: &Vec<Option<u32>>,
        pd: &Vec<Option<u32>>,
        ge_clips: bool,
        pd_clips: bool,
        pd_clips_on_ge: bool,
    ) -> (b: Bodies)
        ensures
            b.wf(),
            b.heights@ == present(ge@, ge@.len()) + present(pd@, pd@.len()),
            b.ge_count == present(ge@, ge@.len()).len(),
            b.count == b.heights@.len(),
            b.ge_template == (b.count > 0 && ge_clips),
            b.pd_template == (b.count > b.ge_count && pd_clips),
            b.pd_template_ge == (b.count > 0 && pd_clips_on_ge),
    {
        let mut heights: Vec<u32> = Vec::new();
        push_present(ge, &mut heights);
        let ge_count: usize = heights.len();
        assert(heights@ =~= present(ge@, ge@.len()));
        push_present(pd, &mut heights);
        let count: usize = heights.len();
        Bodies {
            ge_count,
            count,
            heights,
            ge_template: count > 0 && ge_clips,
            pd_template: count > ge_count && pd_clips,
            pd_template_ge: count > 0 && pd_clips_on_ge,
        }
    }

    /// No body at all.
    pub fn none() -> (b: Bodies)
        ensures
            b.wf(),
            b.count == 0,
            b.heights@.len() == 0,
            !b.ge_template,
            !b.pd_template,
            !b.pd_template_ge,
    {
        Bodies {
            ge_count: 0,
            count: 0,
            heights: Vec::new(),
            ge_template: false,
            pd_template: false,
            pd_template_ge: false,
        }
    }

    pub open spec fn ge_range(self) -> BodyRange {
        BodyRange { first: 0, end: self.ge_count }
    }

    pub open spec fn pd_range(self) -> BodyRange {
        BodyRange { first: self.ge_count, end: self.count }
    }

    /// The bodies of a set, before falling back.
    pub open spec fn wanted(self, set: BodySet) -> BodyRange {
        match set {
            BodySet::All => BodyRange { first: 0, end: self.count },
            BodySet::GoldenEye => self.ge_range(),
            BodySet::PerfectDark => self.pd_range(),
        }
    }

    /// The bodies that a wave draws from: the wanted ones, or the family that did load.
    pub open spec fn drawn_from(self, set: BodySet) -> BodyRange {
        if !self.wanted(set).is_empty() {
            self.wanted(set)
        } else if !self.ge_range().is_empty() {
            self.ge_range()
        } else if !self.pd_range().is_empty() {
            self.pd_range()
        } else {
            self.wanted(set)
        }
    }

    /// The clips that drive a body: on the Perfect Dark rig only Perfect Dark's; on the
    /// GoldenEye rig Perfect Dark's unless the old ones are asked for or are all there is.
    pub open spec fn clips_for(self, body: int, goldeneye_clips: bool) -> Option<Clips> {
        if self.pd_range().holds(body) {
            if self.pd_template {
                Some(Clips { pd_rig: true, pd_clips: true })
            } else {
                None
            }
        } else if goldeneye_clips && self.ge_template {
            Some(Clips { pd_rig: false, pd_clips: false })
        } else if self.pd_template_ge {
            Some(Clips { pd_rig: false, pd_clips: true })
        } else if self.ge_template {
            Some(Clips { pd_rig: false, pd_clips: false })
        } else {
            None
        }
    }

    pub open spec fn height_of(self, body: int) -> u32 {
        if 0 <= body < self.heights@.len() && self.heights@[body] > 100 {
            self.heights@[body]
        } else {
            CAPSULE_REF_HEIGHT
        }
    }

    pub fn ge_bodies(&self) -> (r: BodyRange)
        ensures
            r == self.ge_range(),
    {
        BodyRange { first: 0, end: self.ge_count }
    }

    pub fn pd_bodies(&self) -> (r: BodyRange)
        ensures
            r == self.pd_range(),
    {
        BodyRange { first: self.ge_count, end: self.count }
    }

    /// The bodies that a wave draws from.
    pub fn wave_bodies(&self, set: BodySet) -> (r: BodyRange)
        ensures
            r == self.drawn_from(set),
    {
        let ge: BodyRange = self.ge_bodies();
        let pd: BodyRange = self.pd_bodies();
        let want: BodyRange = match set {
            BodySet::All => BodyRange { first: 0, end: self.count },
            BodySet::GoldenEye => ge,
            BodySet::PerfectDark => pd,
        };
        if want.first >= want.end {
            if ge.first < ge.end {
                return ge;
            }
            if pd.first < pd.end {
                return pd;
            }
        }
        want
    }

    /// The clips that drive a body.
    pub fn body_clips(&self, body: usize, goldeneye_clips: bool) -> (c: Option<Clips>)
        ensures
            c == self.clips_for(body as int, goldeneye_clips),
    {
        if self.ge_count <= body && body < self.count {
            return if self.pd_template {
                Some(Clips { pd_rig: true, pd_clips: true })
            } else {
                None
            };
        }
        if goldeneye_clips && self.ge_template {
            return Some(Clips { pd_rig: false, pd_clips: false });
        }
        if self.pd_template_ge {
            return Some(Clips { pd_rig: false, pd_clips: true });
        }
        if self.ge_template {
            Some(Clips { pd_rig: false, pd_clips: false })
        } else {
            None
        }
    }

    /// A body's standing height, the reference height when it was never measured.
    pub fn body_height(&self, body: usize) -> (h: u32)
        ensures
            h == self.height_of(body as int),
    {
        if body < self.heights.len() && self.heights[body] > 100 {
            self.heights[body]
        } else {
            CAPSULE_REF_HEIGHT
        }
    }

    /// The radius and half height of a body's hit capsule, which grow with the body.
    pub fn body_capsule(&self, body: usize) -> (c: (u64, u64))
        ensures
            c.0 == 240 * self.height_of(body as int) / CAPSULE_REF_HEIGHT as int,
            c.1 == 480 * self.height_of(body as int) / CAPSULE_REF_HEIGHT as int,
    {
        let h: u64 = self.body_height(body) as u64;
        (240 * h / CAPSULE_REF_HEIGHT as u64, 480 * h / CAPSULE_REF_HEIGHT as u64)
    }
}

/// A wave has bodies to wear whenever anything loaded at all.
pub proof fn something_loaded_means_someone_comes(b: Bodies, set: BodySet)
    requires
        b.wf(),
        b.count > 0,
    ensures
        !b.drawn_from(set).is_empty(),
        b.drawn_from(set).end <= b.count,
{
}

/// A Perfect Dark body never plays a GoldenEye clip, whatever the switch says.
pub proof fn pd_bodies_play_pd_clips(b: Bodies, body: int, goldeneye_clips: bool)
    requires
        b.pd_range().holds(body),
    ensures
        b.clips_for(body, goldeneye_clips) matches Some(c) ==> c.pd_clips && c.pd_rig,
{
}

/// How many bodies of `a` are also in `b`.
pub open spec fn shared(a: BodyRange, b: BodyRange) -> int {
    let first = if a.first > b.first {
        a.first
    } else {
        b.first
    };
    let end = if a.end < b.end {
        a.end
    } else {
        b.end
    };
    if first >= end {
        0
    } else {
        end - first
    }
}

fn shared_count(a: BodyRange, b: BodyRange) -> (n: usize)
    ensures
        n == shared(a, b),
{
    let first: usize = if a.first > b.first {
        a.first
    } else {
        b.first
    };
    let end: usize = if a.end < b.end {
        a.end
    } else {
        b.end
    };
    if first >= end {
        0
    } else {
        end - first
    }
}

pub open spec fn clips_text(c: Option<Clips>) -> Seq<char> {
    match c {
        Some(c) => if c.pd_clips {
            "Perfect Dark clips"@
        } else {
            "GoldenEye clips (legacy)"@
        },
        None => "NO CLIPS LOADED"@,
    }
}

pub open spec fn flag_text(on: bool, text: Seq<char>) -> Seq<char> {
    if on {
        text
    } else {
        Seq::empty()
    }
}

/// One line that says what the next wave will wear.
pub open spec fn roster_text(s: Settings, b: Bodies) -> Seq<char> {
    let r = b.drawn_from(s.body_set);
    nat_text(shared(r, b.ge_range()) as nat) + " GoldenEye + "@ + nat_text(
        shared(r, b.pd_range()) as nat,
    ) + " Perfect Dark bodies, "@ + clips_text(b.clips_for(r.first as int, s.goldeneye_clips))
        + flag_text(s.goldeneye_clips, " [GE_CLIPS]"@) + flag_text(s.pd_lab, " [PD_LAB]"@)
}

/// Writes that line.
pub fn roster_summary(s: &Settings, b: &Bodies) -> (t: String)
    ensures
        t@ == roster_text(*s, *b),
{
    let r: BodyRange = b.wave_bodies(s.body_set);
    let mut t: String = String::new();
    push_nat(&mut t, shared_count(r, b.ge_bodies()) as u128);
    assert(t@ =~= nat_text(shared(r, b.ge_range()) as nat));
    t.push_str(" GoldenEye + ");
    push_nat(&mut t, shared_count(r, b.pd_bodies()) as u128);
    t.push_str(" Perfect Dark bodies, ");
    match b.body_clips(r.first, s.goldeneye_clips) {
        Some(c) => if c.pd_clips {
            t.push_str("Perfect Dark clips");
        } else {
            t.push_str("GoldenEye clips (legacy)");
        },
        None => {
            t.push_str("NO CLIPS LOADED");
        },
    }
    if s.goldeneye_clips {
        t.push_str(" [GE_CLIPS]");
    }
    if s.pd_lab {
        t.push_str(" [PD_LAB]");
    }
    assert(t@ =~= roster_text(*s, *b));
    t
}

/// The dial runs in even steps from an untouched hunter at the bottom to one that is half as fast
/// again, reacts in a fifth and recovers in three twentieths of the time, is four times as hard
/// to kill, and always dodges, flanks, covers and suppresses at the top.
pub proof fn the_dial_runs_in_even_steps(d: u32)
    requires
        d <= 10,
    ensures
        ({
            let p = ramp(d);
            &&& p.speed_mult == 1000 + 50 * d && p.sense_mult == 1000 + 40 * d && p.health_mult
                == 1000 + 300 * d
            &&& p.cooldown_mult == 1000 - 85 * d && p.reaction_mult == 1000 - 80 * d
            &&& p.dodge == 100 * d && p.suppress == 100 * d && p.flank == 100 * d && p.cover == 100
                * d
        }),
{
}

/// What the minds are tuned to is what the dial says, but that Perfect Dark's model neither
/// dodges, suppresses, flanks nor covers. The tier is the one that was fixed, or else the dial's.
pub proof fn minds_are_tuned_by_the_dial(s: Settings)
    requires
        s.difficulty <= 10,
    ensures
        ({
            let t = s.tuning();
            let pd = s.ai_mode == AiMode::Pd;
            &&& t.alert == 1000 - 80 * s.difficulty && t.cooldown == 1000 - 85 * s.difficulty
            &&& t.speed_mult == 1000 + 50 * s.difficulty && t.sense == 1000 + 40 * s.difficulty
            &&& pd ==> t.dodge == 0 && t.suppress == 0 && t.flank == 0 && t.cover == 0
            &&& !pd ==> t.dodge == 100 * s.difficulty && t.suppress == 100 * s.difficulty
                && t.flank == 100 * s.difficulty && t.cover == 100 * s.difficulty
            &&& t.mode == s.ai_mode
            &&& match s.tier {
                Some(n) => t.tier == Tier::Fixed(n),
                None => t.tier == Tier::Dial((100 * s.difficulty) as u32),
            }
        }),
{
}

/// A value is moved into its bounds and no farther.
pub proof fn clamping_moves_into_bounds(v: int, lo: int, hi: int)
    requires
        lo <= hi,
    ensures
        lo <= clamp_to(v, lo, hi) <= hi,
        lo <= v <= hi ==> clamp_to(v, lo, hi) == v,
        v < lo ==> clamp_to(v, lo, hi) == lo,
        v > hi ==> clamp_to(v, lo, hi) == hi,
{
}

/// Bodies are drawn from the family that was asked for where it has any, else from GoldenEye's,
/// else from Perfect Dark's. GoldenEye's bodies come first, Perfect Dark's after them.
pub proof fn bodies_come_from_the_family_asked_for(b: Bodies)
    requires
        b.wf(),
    ensures
        b.drawn_from(BodySet::All).first == 0 || b.count == 0,
        b.count > 0 ==> b.drawn_from(BodySet::All) == (BodyRange { first: 0, end: b.count }),
        b.ge_count > 0 ==> b.drawn_from(BodySet::GoldenEye) == (BodyRange {
            first: 0,
            end: b.ge_count,
        }),
        b.count > b.ge_count ==> b.drawn_from(BodySet::PerfectDark) == (BodyRange {
            first: b.ge_count,
            end: b.count,
        }),
        b.ge_count == 0 && b.count > 0 ==> b.drawn_from(BodySet::GoldenEye) == (BodyRange {
            first: 0,
            end: b.count,
        }),
        b.count == b.ge_count && b.count > 0 ==> b.drawn_from(BodySet::PerfectDark) == (BodyRange {
            first: 0,
            end: b.count,
        }),
{
}

/// A Perfect Dark body plays Perfect Dark's clips or none. A GoldenEye body plays GoldenEye's
/// where those are asked for and loaded, else Perfect Dark's made for it, else GoldenEye's after
/// all.
pub proof fn bodies_play_the_clips_there_are(b: Bodies, body: int, legacy: bool)
    requires
        b.wf(),
        0 <= body < b.count,
    ensures
        ({
            let c = b.clips_for(body, legacy);
            &&& body >= b.ge_count && b.pd_template ==> c == Some(
                Clips { pd_rig: true, pd_clips: true },
            )
            &&& body >= b.ge_count && !b.pd_template ==> c is None
            &&& body < b.ge_count ==> {
                let ge = Some(Clips { pd_rig: false, pd_clips: false });
                let pd = Some(Clips { pd_rig: false, pd_clips: true });
                &&& legacy && b.ge_template ==> c == ge
                &&& !(legacy && b.ge_template) && b.pd_template_ge ==> c == pd
                &&& !legacy && !b.pd_template_ge && b.ge_template ==> c == ge
                &&& !b.pd_template_ge && !b.ge_template ==> c is None
            }
        }),
{
}

/// A body is as tall as it was measured, and 1.5 m where it was not or the measure makes no
/// sense.
pub proof fn bodies_are_as_tall_as_measured(b: Bodies, body: int)
    ensures
        0 <= body < b.heights@.len() && b.heights@[body] > 100 ==> b.height_of(body)
            == b.heights@[body],
        0 <= body < b.heights@.len() && b.heights@[body] <= 100 ==> b.height_of(body) == 1500,
        body < 0 || body >= b.heights@.len() ==> b.height_of(body) == 1500,
{
}

/// What two ranges share is the bodies that are in both.
pub proof fn ranges_share_what_is_in_both(a: BodyRange, b: BodyRange, x: int)
    ensures
        shared(a, b) == shared(b, a),
        shared(a, b) >= 0,
        a.first <= x < a.end && b.first <= x < b.end ==> shared(a, b) > 0,
        a.first >= b.first && a.end <= b.end && a.first <= a.end ==> shared(a, b) == a.end
            - a.first,
        a.end <= b.first ==> shared(a, b) == 0,
        a.first <= b.first <= a.end <= b.end ==> shared(a, b) == a.end - b.first,
{
}

/// The bodies that loaded are kept, in order.
pub proof fn bodies_that_loaded_are_kept(heights: Seq<Option<u32>>, n: nat)
    requires
        n <= heights.len(),
    ensures
        present(heights, n) == heights.take(n as int).filter(|h: Option<u32>| h is Some).map_values(|h: Option<u32>| h->0),
    decreases n,
{
    reveal(Seq::filter);
    let t = heights.take(n as int);
    if n > 0 {
        bodies_that_loaded_are_kept(heights, (n - 1) as nat);
        assert(t.drop_last() =~= heights.take(n - 1));
        assert(t.last() == heights[n - 1]);
    } else {
        assert(t =~= Seq::empty());
    }
    assert(present(heights, n) =~= t.filter(|h: Option<u32>| h is Some).map_values(|h: Option<u32>| h->0));
}

/// The summary of a roster counts the bodies of each family that can be drawn, names the clips
/// that they play, and tells of the two switches that are on.
pub proof fn the_roster_is_summed_up(s: Settings, b: Bodies)
    ensures
        ({
            let r = b.drawn_from(s.body_set);
            let clips = match b.clips_for(r.first as int, s.goldeneye_clips) {
                Some(c) => if c.pd_clips {
                    "Perfect Dark clips"@
                } else {
                    "GoldenEye clips (legacy)"@
                },
                None => "NO CLIPS LOADED"@,
            };
            let head = nat_text(shared(r, b.ge_range()) as nat) + " GoldenEye + "@ + nat_text(
                shared(r, b.pd_range()) as nat,
            ) + " Perfect Dark bodies, "@ + clips;
            &&& !s.goldeneye_clips && !s.pd_lab ==> roster_text(s, b) == head
            &&& s.goldeneye_clips && !s.pd_lab ==> roster_text(s, b) == head + " [GE_CLIPS]"@
            &&& !s.goldeneye_clips && s.pd_lab ==> roster_text(s, b) == head + " [PD_LAB]"@
            &&& s.goldeneye_clips && s.pd_lab ==> roster_text(s, b) == head + " [GE_CLIPS]"@
                + " [PD_LAB]"@
        }),
{
    let r = b.drawn_from(s.body_set);
    let head = nat_text(shared(r, b.ge_range()) as nat) + " GoldenEye + "@ + nat_text(
        shared(r, b.pd_range()) as nat,
    ) + " Perfect Dark bodies, "@ + clips_text(b.clips_for(r.first as int, s.goldeneye_clips));
    assert(head + Seq::<char>::empty() =~= head);
    if !s.pd_lab {
        assert(roster_text(s, b) =~= head + flag_text(s.goldeneye_clips, " [GE_CLIPS]"@));
    }
}

} // verus!
