//! The switches, dials and readings of the game.
use vstd::prelude::*;

use crate::editing::{Bounds, FaceInfo};
use crate::hunter::{AiMode, Hunter, PdDebug};
use crate::nav_issues::{NavIssues, NavMetrics};
use crate::nav_survey::{block_of, NavPanel, OverlayMark};
use crate::player::{min_of, HUD_FADE_TAIL, PLAYER_MAX_ARMOR, PLAYER_MAX_HEALTH};
use crate::rng::{drawn, rand_below, shifted};
use crate::settings::{
    clamp_to, ramp, roster_summary, roster_text, AiTuning, BodySet, DiffParams, Settings,
    WAVE_SIZE_MAX,
};
use crate::space::Point;
use crate::world::{Mode, World};

verus! {

/// The readouts among the first `n` hunters.
pub open spec fn readouts(hs: Seq<Hunter>, n: nat) -> Seq<PdDebug>
    decreases n,
{
    if n == 0 {
        Seq::empty()
    } else {
        let rest = readouts(hs, (n - 1) as nat);
        match hs[n - 1].pd_debug {
            Some(d) => rest.push(d),
            None => rest,
        }
    }
}

impl World {
    // ---- Switches ----

    /// Sets whether hunters flinch with the hurt clip of the zone that was hit.
    pub fn set_hit_reactions(&mut self, v: bool)
        ensures
            final(self).settings == (Settings { hit_reactions: v, ..old(self).settings }),
            *final(self) == (World { settings: final(self).settings, ..*old(self) }),
    {
        let mut settings: Settings = self.settings;
        settings.hit_reactions = v;
        self.put_settings(settings);
    }

    /// Sets whether hunters react with the animations authored for the part that was hit.
    pub fn set_authored_reactions(&mut self, v: bool)
        ensures
            final(self).settings == (Settings { authored_reactions: v, ..old(self).settings }),
            *final(self) == (World { settings: final(self).settings, ..*old(self) }),
    {
        let mut settings: Settings = self.settings;
        settings.authored_reactions = v;
        self.put_settings(settings);
    }

    /// Whether hunters react with the animations authored for the part that was hit.
    pub fn authored_reactions(&self) -> (v: bool)
        ensures
            v == self.settings.authored_reactions,
    {
        self.settings.authored_reactions
    }

    /// Sets whether hunters steer around one another.
    pub fn set_local_avoidance(&mut self, v: bool)
        ensures
            final(self).settings == (Settings { local_avoidance: v, ..old(self).settings }),
            *final(self) == (World { settings: final(self).settings, ..*old(self) }),
    {
        let mut settings: Settings = self.settings;
        settings.local_avoidance = v;
        self.put_settings(settings);
    }

    /// Whether hunters steer around one another.
    pub fn local_avoidance(&self) -> (v: bool)
        ensures
            v == self.settings.local_avoidance,
    {
        self.settings.local_avoidance
    }

    /// Sets whether hunters turn their heads to what they are thinking of.
    pub fn set_head_look(&mut self, v: bool)
        ensures
            final(self).settings == (Settings { head_look: v, ..old(self).settings }),
            *final(self) == (World { settings: final(self).settings, ..*old(self) }),
    {
        let mut settings: Settings = self.settings;
        settings.head_look = v;
        self.put_settings(settings);
    }

    /// Whether hunters turn their heads to what they are thinking of.
    pub fn head_look(&self) -> (v: bool)
        ensures
            v == self.settings.head_look,
    {
        self.settings.head_look
    }

    /// Sets whether hunters put their feet on the floor beneath them.
    pub fn set_foot_ik(&mut self, v: bool)
        ensures
            final(self).settings == (Settings { foot_ik: v, ..old(self).settings }),
            *final(self) == (World { settings: final(self).settings, ..*old(self) }),
    {
        let mut settings: Settings = self.settings;
        settings.foot_ik = v;
        self.put_settings(settings);
    }

    /// Whether hunters put their feet on the floor beneath them.
    pub fn foot_ik(&self) -> (v: bool)
        ensures
            v == self.settings.foot_ik,
    {
        self.settings.foot_ik
    }

    /// Sets whether the physics plays deaths and staggers.
    pub fn set_ragdoll(&mut self, v: bool)
        ensures
            final(self).settings == (Settings { ragdoll: v, ..old(self).settings }),
            *final(self) == (World { settings: final(self).settings, ..*old(self) }),
    {
        let mut settings: Settings = self.settings;
        settings.ragdoll = v;
        self.put_settings(settings);
    }

    /// Whether the physics plays deaths and staggers.
    pub fn ragdoll(&self) -> (v: bool)
        ensures
            v == self.settings.ragdoll,
    {
        self.settings.ragdoll
    }

    /// Sets whether hunters keep their distance from walls.
    pub fn set_wall_clearance(&mut self, v: bool)
        ensures
            final(self).settings == (Settings { wall_clearance: v, ..old(self).settings }),
            *final(self) == (World { settings: final(self).settings, ..*old(self) }),
    {
        let mut settings: Settings = self.settings;
        settings.wall_clearance = v;
        self.put_settings(settings);
    }

    /// Whether hunters keep their distance from walls.
    pub fn wall_clearance(&self) -> (v: bool)
        ensures
            v == self.settings.wall_clearance,
    {
        self.settings.wall_clearance
    }

    /// Sets whether hunters weigh what to do, rather than follow fixed rules.
    pub fn set_utility_ai(&mut self, v: bool)
        ensures
            final(self).settings == (Settings { utility_ai: v, ..old(self).settings }),
            *final(self) == (World { settings: final(self).settings, ..*old(self) }),
    {
        let mut settings: Settings = self.settings;
        settings.utility_ai = v;
        self.put_settings(settings);
    }

    /// Whether hunters weigh what to do, rather than follow fixed rules.
    pub fn utility_ai(&self) -> (v: bool)
        ensures
            v == self.settings.utility_ai,
    {
        self.settings.utility_ai
    }

    /// Sets whether hunters know where the player is without seeing it.
    pub fn set_pd_omniscience(&mut self, v: bool)
        ensures
            final(self).settings == (Settings { pd_omniscience: v, ..old(self).settings }),
            *final(self) == (World { settings: final(self).settings, ..*old(self) }),
    {
        let mut settings: Settings = self.settings;
        settings.pd_omniscience = v;
        self.put_settings(settings);
    }

    /// Whether hunters know where the player is without seeing it.
    pub fn pd_omniscience(&self) -> (v: bool)
        ensures
            v == self.settings.pd_omniscience,
    {
        self.settings.pd_omniscience
    }

    /// Sets whether hunters throw grenades at a player that camps.
    pub fn set_grenades(&mut self, v: bool)
        ensures
            final(self).settings == (Settings { grenades: v, ..old(self).settings }),
            *final(self) == (World { settings: final(self).settings, ..*old(self) }),
    {
        let mut settings: Settings = self.settings;
        settings.grenades = v;
        self.put_settings(settings);
    }

    /// Whether hunters throw grenades at a player that camps.
    pub fn grenades(&self) -> (v: bool)
        ensures
            v == self.settings.grenades,
    {
        self.settings.grenades
    }

    /// Sets whether GoldenEye bodies play their own clips.
    pub fn set_goldeneye_clips(&mut self, v: bool)
        ensures
            final(self).settings == (Settings { goldeneye_clips: v, ..old(self).settings }),
            *final(self) == (World { settings: final(self).settings, ..*old(self) }),
    {
        let mut settings: Settings = self.settings;
        settings.goldeneye_clips = v;
        self.put_settings(settings);
    }

    /// Sets whether a wave comes in when a hunt starts.
    pub fn set_spawn_enemies(&mut self, v: bool)
        ensures
            final(self).settings == (Settings { spawn_enemies: v, ..old(self).settings }),
            *final(self) == (World { settings: final(self).settings, ..*old(self) }),
    {
        let mut settings: Settings = self.settings;
        settings.spawn_enemies = v;
        self.put_settings(settings);
    }

    /// Sets which bodies the next wave draws from.
    pub fn set_body_set(&mut self, v: BodySet)
        ensures
            final(self).settings == (Settings { body_set: v, ..old(self).settings }),
            *final(self) == (World { settings: final(self).settings, ..*old(self) }),
    {
        let mut settings: Settings = self.settings;
        settings.body_set = v;
        self.put_settings(settings);
    }

    /// Sets which engagement model the hunters follow.
    pub fn set_ai_mode(&mut self, v: AiMode)
        ensures
            final(self).settings == (Settings { ai_mode: v, ..old(self).settings }),
            *final(self) == (World { settings: final(self).settings, ..*old(self) }),
    {
        let mut settings: Settings = self.settings;
        settings.ai_mode = v;
        self.put_settings(settings);
    }

    /// Which engagement model the hunters follow.
    pub fn ai_mode(&self) -> (v: AiMode)
        ensures
            v == self.settings.ai_mode,
    {
        self.settings.ai_mode
    }

    /// Whether hunters are switched on.
    pub fn hunters_enabled(&self) -> (v: bool)
        ensures
            v == self.settings.hunters_enabled,
    {
        self.settings.hunters_enabled
    }

    /// Whether the simulant laboratory is on.
    pub fn pd_lab_active(&self) -> (v: bool)
        ensures
            v == self.settings.pd_lab,
    {
        self.settings.pd_lab
    }

    /// What the overlay shows of the hunters with an aim model, in their order. Outside the
    /// laboratory there is nothing to show.
    pub fn pd_debug(&self) -> (out: Vec<PdDebug>)
        ensures
            out@ == if self.settings.pd_lab {
                readouts(self.hunters@, self.hunters@.len())
            } else {
                Seq::empty()
            },
    {
        let mut out: Vec<PdDebug> = Vec::new();
        if !self.settings.pd_lab {
            return out;
        }
        let mut k: usize = 0;
        while k < self.hunters.len()
            invariant
                k <= self.hunters@.len(),
                out@ == readouts(self.hunters@, k as nat),
            decreases self.hunters@.len() - k,
        {
            if let Some(d) = self.hunters[k].pd_debug {
                out.push(d);
            }
            k = k + 1;
        }
        out
    }

    /// Where the difficulty dial stands.
    pub fn difficulty(&self) -> (v: u32)
        ensures
            v == self.settings.difficulty,
    {
        self.settings.difficulty
    }

    /// How many hunters the next wave has.
    pub fn wave_size(&self) -> (v: usize)
        ensures
            v == self.settings.wave_size,
    {
        self.settings.wave_size
    }

    /// Sets how many hunters the next wave has, as far as the dial goes.
    pub fn set_wave_size(&mut self, n: usize)
        ensures
            *final(self) == (World {
                settings: Settings {
                    wave_size: clamp_to(n as int, 1, WAVE_SIZE_MAX as int) as usize,
                    ..old(self).settings
                },
                ..*old(self)
            }),
    {
        let mut settings: Settings = self.settings;
        settings.set_wave_size(n);
        self.put_settings(settings);
    }

    /// Turns the simulant laboratory on.
    pub fn enable_pd_lab(&mut self, count: usize, tier: Option<u8>)
        ensures
            *final(self) == (World {
                settings: Settings {
                    wave_size: if count == 0 {
                        1
                    } else {
                        count
                    },
                    tier,
                    pd_lab: true,
                    body_set: BodySet::PerfectDark,
                    ..old(self).settings
                },
                ..*old(self)
            }),
    {
        let mut settings: Settings = self.settings;
        settings.enable_pd_lab(count, tier);
        self.put_settings(settings);
    }

    /// What the difficulty dial does at its present position.
    pub fn difficulty_params(&self) -> (d: DiffParams)
        requires
            self.settings.wf(),
        ensures
            d == ramp(self.settings.difficulty),
    {
        self.settings.difficulty_params()
    }

    /// What the hunters' decisions read.
    pub fn ai_tuning(&self) -> (t: AiTuning)
        requires
            self.settings.wf(),
        ensures
            t == self.settings.tuning(),
    {
        self.settings.ai_tuning()
    }

    /// One line that says what the next wave will wear.
    pub fn roster_summary(&self) -> (t: String)
        ensures
            t@ == roster_text(self.settings, self.bodies),
    {
        roster_summary(&self.settings, &self.bodies)
    }

    // ---- Chance ----

    /// Draws an index below `n`, zero when `n` is zero.
    pub fn rand_below(&mut self, n: usize) -> (i: usize)
        ensures
            i == drawn(old(self).char_rng, n),
            *final(self) == (World { char_rng: shifted(old(self).char_rng), ..*old(self) }),
    {
        rand_below(&mut self.char_rng, n)
    }

    /// Draws one of the 2^24 steps from zero up to one.
    pub fn rand_unit(&mut self) -> (u: u32)
        ensures
            u == drawn(old(self).char_rng, 0x100_0000),
            u < 0x100_0000,
            *final(self) == (World { char_rng: shifted(old(self).char_rng), ..*old(self) }),
    {
        let i: usize = rand_below(&mut self.char_rng, 0x100_0000);
        i as u32
    }

    // ---- The player ----

    /// Where the player stands, in a hunt.
    pub fn player_pos(&self) -> (v: Option<Point>)
        ensures
            v == self.player.pos,
    {
        self.player.pos
    }

    /// The health that the player has left.
    pub fn player_health(&self) -> (v: u32)
        ensures
            v == self.player.health,
    {
        self.player.health
    }

    /// The armour that the player has left.
    pub fn player_armor(&self) -> (v: u32)
        ensures
            v == self.player.armor,
    {
        self.player.armor
    }

    /// Whether the player is dead.
    pub fn is_player_dead(&self) -> (v: bool)
        ensures
            v == self.player.dead,
    {
        self.player.dead
    }

    /// How red the screen is.
    pub fn damage_flash(&self) -> (v: u32)
        ensures
            v == self.player.damage_flash,
    {
        self.player.damage_flash
    }

    /// Whether a hunter has caught the player.
    pub fn is_caught(&self) -> (v: bool)
        ensures
            v == self.caught,
    {
        self.caught
    }

    /// Whether the free crosshair is drawn.
    pub fn crosshair_visible(&self) -> (v: bool)
        ensures
            v == self.aiming,
    {
        self.aiming
    }

    /// Whether the level is being built.
    pub fn is_build(&self) -> (b: bool)
        ensures
            b == (self.mode == Mode::Build),
    {
        self.mode == Mode::Build
    }

    /// How visible the health display is, out of [`HUD_FADE_TAIL`].
    pub fn hud_alpha(&self) -> (a: u32)
        ensures
            a == min_of(self.player.hud_show_timer, HUD_FADE_TAIL),
    {
        self.player.hud_alpha()
    }

    /// How full the two bars of the health display are, each out of its maximum.
    pub fn health_hud_rgba(&self) -> (bars: (u32, u32))
        ensures
            bars.0 == min_of(self.player.health, PLAYER_MAX_HEALTH),
            bars.1 == min_of(self.player.armor, PLAYER_MAX_ARMOR),
    {
        (
            if self.player.health < PLAYER_MAX_HEALTH {
                self.player.health
            } else {
                PLAYER_MAX_HEALTH
            },
            if self.player.armor < PLAYER_MAX_ARMOR {
                self.player.armor
            } else {
                PLAYER_MAX_ARMOR
            },
        )
    }

    /// Makes the player invulnerable, or vulnerable again.
    pub fn toggle_invulnerable(&mut self) -> (on: bool)
        ensures
            on == !old(self).player.invulnerable,
            *final(self) == (World {
                player: crate::player::Player { invulnerable: on, ..old(self).player },
                ..*old(self)
            }),
    {
        self.player.invulnerable = !self.player.invulnerable;
        self.player.invulnerable
    }

    /// Makes the player invisible to the hunters, or visible again.
    pub fn toggle_invisible(&mut self) -> (on: bool)
        ensures
            on == !old(self).player.invisible,
            *final(self) == (World {
                player: crate::player::Player { invisible: on, ..old(self).player },
                ..*old(self)
            }),
    {
        self.player.invisible = !self.player.invisible;
        self.player.invisible
    }

    // ---- Weapons ----

    /// What the player can spend.
    pub fn credits(&self) -> (v: u32)
        ensures
            v == self.arms.credits,
    {
        self.arms.credits
    }

    /// Which weapon is in hand.
    pub fn active_weapon_index(&self) -> (v: usize)
        ensures
            v == self.arms.index,
    {
        self.arms.index
    }

    /// How many weapons the arsenal has.
    pub fn weapon_count(&self) -> (n: usize)
        ensures
            n == self.arms.guns@.len(),
    {
        self.arms.guns.len()
    }

    /// Whether the player owns weapon `i`.
    pub fn owns_weapon(&self, i: usize) -> (b: bool)
        ensures
            b == self.arms.owns(i as int),
    {
        self.arms.owns_weapon(i)
    }

    /// The rounds of weapon `i`, in the magazine and in reserve.
    pub fn weapon_ammo(&self, i: usize) -> (a: Option<(u32, u32)>)
        ensures
            a == if i < self.arms.guns@.len() {
                Some((self.arms.guns@[i as int].magazine, self.arms.guns@[i as int].reserve))
            } else {
                None
            },
    {
        self.arms.weapon_ammo(i)
    }

    /// Buys weapon `i`.
    pub fn buy_weapon(&mut self, i: usize) -> (bought: bool)
        requires
            old(self).arms.wf(),
        ensures
            bought == old(self).arms.can_buy(i),
            bought ==> final(self).arms.owned@ == old(self).arms.owned@.update(i as int, true)
                && final(self).arms.credits == old(self).arms.credits
                - old(self).arms.guns@[i as int].price,
            !bought ==> *final(self) == *old(self),
            final(self).arms == (crate::arms::Armory {
                owned: final(self).arms.owned,
                credits: final(self).arms.credits,
                ..old(self).arms
            }),
            *final(self) == (World { arms: final(self).arms, ..*old(self) }),
            final(self).arms.wf(),
    {
        self.arms.buy_weapon(i)
    }

    /// Buys ammunition for weapon `i`.
    pub fn buy_ammo(&mut self, i: usize) -> (bought: bool)
        requires
            old(self).arms.wf(),
            old(self).arms.can_buy_ammo(i) ==> old(self).arms.guns@[i as int].reserve + old(
                self).arms.rounds_bought(i) <= u32::MAX,
        ensures
            bought == old(self).arms.can_buy_ammo(i),
            bought ==> final(self).arms.guns@ == old(self).arms.guns@.update(
                i as int,
                crate::arms::Gun {
                    reserve: (old(self).arms.guns@[i as int].reserve + old(
                        self).arms.rounds_bought(i)) as u32,
                    ..old(self).arms.guns@[i as int]
                },
            ) && final(self).arms.credits == old(self).arms.credits
                - old(self).arms.guns@[i as int].ammo_price,
            !bought ==> *final(self) == *old(self),
            final(self).arms == (crate::arms::Armory {
                guns: final(self).arms.guns,
                credits: final(self).arms.credits,
                ..old(self).arms
            }),
            *final(self) == (World { arms: final(self).arms, ..*old(self) }),
            final(self).arms.wf(),
    {
        self.arms.buy_ammo(i)
    }

    /// Tells whether the weapon in hand changed, once.
    pub fn take_models_dirty(&mut self) -> (dirty: bool)
        ensures
            dirty == old(self).arms.models_dirty,
            *final(self) == (World {
                arms: crate::arms::Armory { models_dirty: false, ..old(self).arms },
                ..*old(self)
            }),
    {
        self.arms.take_models_dirty()
    }

    /// Whether a request to reload reaches the weapon: only in a hunt.
    pub fn reload_weapon(&self) -> (b: bool)
        ensures
            b == (self.mode == Mode::Hunt),
    {
        self.mode == Mode::Hunt
    }

    /// Whether the gun in hand is drawn, given that its model was loaded or not.
    pub fn viewmodel_transform(&self, model: bool) -> (b: bool)
        ensures
            b == (self.mode == Mode::Hunt && model),
    {
        self.mode == Mode::Hunt && model
    }

    /// Whether the muzzle flash is drawn, given that its model was loaded or not and that a
    /// flash is showing or not.
    pub fn muzzle_transform(&self, model: bool, flash: bool) -> (b: bool)
        ensures
            b == (self.mode == Mode::Hunt && model && flash),
    {
        self.mode == Mode::Hunt && model && flash
    }
}

// ---- Looking ----

/// What moving the mouse does.
#[derive(Clone, Copy, PartialEq, Eq, Debug, Structural)]
pub enum LookAction {
    /// The flying camera turns.
    Fly,
    /// The movement is thrown away, so that it does not jump later.
    Drain,
    /// The crosshair floats, and pans the view at its rim.
    FreeAim,
    /// The view turns and the crosshair springs back.
    Turn,
}

/// What the stick of a gamepad does.
#[derive(Clone, Copy, PartialEq, Eq, Debug, Structural)]
pub enum PadAction {
    /// Nothing, and the player stops moving.
    Idle,
    /// It aims, and the player stops moving.
    Aim,
    /// It walks and turns.
    Walk,
}

/// Which eyes the picture is drawn through.
#[derive(Clone, Copy, PartialEq, Eq, Debug, Structural)]
pub enum ViewSource {
    /// The drafting view, from above or the side.
    Ortho,
    Player,
    Camera,
}

/// What the display on top of the picture shows.
#[derive(Clone, Copy, PartialEq, Eq, Debug, Structural)]
pub enum HudView {
    Death,
    Status { magazine: u32, reserve: u32, difficulty: u32, credits: u32 },
}

impl World {
    /// What moving the mouse does now.
    pub fn look(&mut self, pointer_locked: bool, right_button: bool) -> (a: LookAction)
        ensures
            a == match old(self).mode {
                Mode::Build => LookAction::Fly,
                Mode::Hunt => if !pointer_locked {
                    LookAction::Drain
                } else if right_button {
                    LookAction::FreeAim
                } else {
                    LookAction::Turn
                },
            },
            *final(self) == (World {
                aiming: old(self).mode == Mode::Hunt && pointer_locked && right_button,
                ..*old(self)
            }),
    {
        match self.mode {
            Mode::Build => {
                self.aiming = false;
                LookAction::Fly
            },
            Mode::Hunt => {
                self.aiming = pointer_locked && right_button;
                if !pointer_locked {
                    LookAction::Drain
                } else if right_button {
                    LookAction::FreeAim
                } else {
                    LookAction::Turn
                }
            },
        }
    }

    /// What the stick of a gamepad does now.
    pub fn gamepad_look(&mut self, pointer_locked: bool, aim_mode: bool) -> (a: PadAction)
        ensures
            a == if old(self).mode != Mode::Hunt || !pointer_locked {
                PadAction::Idle
            } else if aim_mode {
                PadAction::Aim
            } else {
                PadAction::Walk
            },
            *final(self) == (World { aiming: a == PadAction::Aim, ..*old(self) }),
    {
        if self.mode != Mode::Hunt || !pointer_locked {
            self.aiming = false;
            return PadAction::Idle;
        }
        self.aiming = aim_mode;
        if aim_mode {
            PadAction::Aim
        } else {
            PadAction::Walk
        }
    }

    /// Which eyes the picture is drawn through; `ortho` tells whether a drafting view is up.
    pub fn view_proj(&self, ortho: bool) -> (v: ViewSource)
        ensures
            v == if self.mode == Mode::Build && ortho {
                ViewSource::Ortho
            } else if self.mode == Mode::Hunt && self.player.pos is Some {
                ViewSource::Player
            } else {
                ViewSource::Camera
            },
    {
        if self.mode == Mode::Build && ortho {
            ViewSource::Ortho
        } else if self.mode == Mode::Hunt && self.player.pos.is_some() {
            ViewSource::Player
        } else {
            ViewSource::Camera
        }
    }

    /// What the display on top of the picture shows, in a hunt.
    pub fn hud_mesh(&self) -> (h: Option<HudView>)
        requires
            self.arms.wf(),
        ensures
            h == if self.mode != Mode::Hunt {
                None
            } else if self.player.dead {
                Some(HudView::Death)
            } else {
                Some(
                    HudView::Status {
                        magazine: self.arms.guns@[self.arms.index as int].magazine,
                        reserve: self.arms.guns@[self.arms.index as int].reserve,
                        difficulty: self.settings.difficulty,
                        credits: self.arms.credits,
                    },
                )
            },
    {
        if self.mode != Mode::Hunt {
            None
        } else if self.player.dead {
            Some(HudView::Death)
        } else {
            Some(
                HudView::Status {
                    magazine: self.arms.guns[self.arms.index].magazine,
                    reserve: self.arms.guns[self.arms.index].reserve,
                    difficulty: self.settings.difficulty,
                    credits: self.arms.credits,
                },
            )
        }
    }

    /// The places of the boxes that stand for the hunters when no body was loaded; there are
    /// none when one was, or when there are no hunters.
    pub fn enemy_mesh(&self) -> (out: Option<Vec<Point>>)
        ensures
            out is Some <==> self.bodies.count == 0 && self.hunters@.len() > 0,
            out matches Some(v) ==> v@ == self.hunters@.map_values(|h: Hunter| h.pos.above(600)),
    {
        if self.bodies.count > 0 || self.hunters.len() == 0 {
            return None;
        }
        let mut out: Vec<Point> = Vec::new();
        let mut k: usize = 0;
        while k < self.hunters.len()
            invariant
                k <= self.hunters@.len(),
                out@.len() == k,
                forall|j: int| 0 <= j < k ==> #[trigger] out@[j] == self.hunters@[j].pos.above(600),
            decreases self.hunters@.len() - k,
        {
            out.push(self.hunters[k].pos.raised(600));
            k = k + 1;
        }
        assert(out@ =~= self.hunters@.map_values(|h: Hunter| h.pos.above(600)));
        Some(out)
    }

    /// The rectangle that is drawn over the selected face: the selection, or the whole face.
    pub fn selection_face_mesh(&self, info: Option<FaceInfo>) -> (b: Option<Bounds>)
        ensures
            b == match (self.edit.selected, info) {
                (Some(_), Some(i)) => Some(
                    match self.edit.sel_bounds {
                        Some(s) => s,
                        None => Bounds { u0: i.u_min, u1: i.u_max, v0: i.v_min, v1: i.v_max },
                    },
                ),
                _ => None,
            },
    {
        match (self.edit.selected, info) {
            (Some(_), Some(i)) => match self.edit.sel_bounds {
                Some(s) => Some(s),
                None => Some(Bounds { u0: i.u_min, u1: i.u_max, v0: i.v_min, v1: i.v_max }),
            },
            _ => None,
        }
    }

    /// The themes that the digit keys are bound to, in the order of the keys.
    pub fn theme_hotkeys(&self) -> (k: &Vec<(char, String)>)
        ensures
            *k == self.level.theme_hotkeys,
            self.level@.wf() ==> crate::level::keys_in_order(crate::level::hotkeys_of(k@)),
    {
        &self.level.theme_hotkeys
    }

    // ---- The navigation tab ----

    /// Caches the findings and the overlay of a finished pass.
    pub fn calculate_nav_issues(
        &mut self,
        pass: Option<(NavIssues, Vec<OverlayMark>)>,
        calc_ms: u64,
        metrics: NavMetrics,
    )
        requires
            old(self).nav.overlay_rev < u32::MAX,
        ensures
            NavPanel::is_calculated(old(self).nav, pass, calc_ms, metrics, final(self).nav),
            *final(self) == (World { nav: final(self).nav, ..*old(self) }),
    {
        self.nav.calculate_nav_issues(pass, calc_ms, metrics);
    }

    /// The cached findings, once something was calculated.
    pub fn nav_issues(&self) -> (i: Option<&NavIssues>)
        ensures
            i is Some <==> self.nav.issues is Some,
            i matches Some(x) ==> self.nav.issues == Some(*x),
    {
        self.nav.issues.as_ref()
    }

    /// Whether the overlay is drawn.
    pub fn nav_overlay_on(&self) -> (v: bool)
        ensures
            v == self.nav.overlay_on,
    {
        self.nav.overlay_on
    }

    /// A number that changes whenever the overlay may have changed.
    pub fn nav_overlay_rev(&self) -> (v: u32)
        ensures
            v == self.nav.overlay_rev,
    {
        self.nav.overlay_rev
    }

    /// Shows or hides the overlay.
    pub fn toggle_nav_overlay(&mut self)
        requires
            old(self).nav.overlay_rev < u32::MAX,
        ensures
            *final(self) == (World {
                nav: NavPanel {
                    overlay_on: !old(self).nav.overlay_on,
                    overlay_rev: (old(self).nav.overlay_rev + 1) as u32,
                    ..old(self).nav
                },
                ..*old(self)
            }),
    {
        self.nav.toggle_nav_overlay();
    }

    /// The overlay, when it is on and something was calculated.
    pub fn nav_overlay_mesh(&self) -> (o: Option<&Vec<OverlayMark>>)
        ensures
            o is Some <==> self.nav.overlay_on && self.nav.overlay is Some,
            o matches Some(v) ==> self.nav.overlay == Some(*v),
    {
        self.nav.nav_overlay_mesh()
    }

    /// The report as one block of text. When nothing is cached yet, the findings of `pass`
    /// are cached first.
    pub fn nav_issue_report(
        &mut self,
        pass: Option<(NavIssues, Vec<OverlayMark>)>,
        calc_ms: u64,
        metrics: NavMetrics,
    ) -> (t: String)
        requires
            old(self).nav.issues is None ==> old(self).nav.overlay_rev < u32::MAX,
        ensures
            old(self).nav.issues is Some ==> final(self).nav == old(self).nav,
            old(self).nav.issues is None ==> NavPanel::is_calculated(
                old(self).nav,
                pass,
                calc_ms,
                metrics,
                final(self).nav,
            ),
            final(self).nav.issues matches Some(i) && t@ == block_of(i),
            *final(self) == (World { nav: final(self).nav, ..*old(self) }),
    {
        self.nav.nav_issue_report(pass, calc_ms, metrics)
    }
}

/// Every readout that there is is shown, in the order of the hunters.
pub proof fn readouts_are_shown_in_order(hs: Seq<Hunter>, n: nat)
    requires
        n <= hs.len(),
    ensures
        readouts(hs, n) == hs.take(n as int).filter(|h: Hunter| h.pd_debug is Some).map_values(|h: Hunter| h.pd_debug->0),
    decreases n,
{
    reveal(Seq::filter);
    let t = hs.take(n as int);
    if n > 0 {
        readouts_are_shown_in_order(hs, (n - 1) as nat);
        assert(t.drop_last() =~= hs.take(n - 1));
        assert(t.last() == hs[n - 1]);
    } else {
        assert(t =~= Seq::empty());
    }
    assert(readouts(hs, n) =~= t.filter(|h: Hunter| h.pd_debug is Some).map_values(|h: Hunter| h.pd_debug->0));
}

} // verus!
