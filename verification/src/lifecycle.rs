//! The course of a hunt: starting and ending it, and the dials that restart it.
use vstd::prelude::*;

use crate::combat::Camp;
use crate::editing::Editor;
use crate::hunt::bodies_held;
use crate::nav_survey::PadProbe;
use crate::pack::{decimated, is_pad_pool, is_spread_pick, marker_pos, SEARCH_POINT_COUNT};
use crate::player::Player;
use crate::settings::{clamp_to, Settings, DIFFICULTY_MAX, WAVE_SIZE_MAX};
use crate::space::Point;
use crate::world::{Mode, Pose, Score, World};

verus! {

/// How high above the feet the camera is put when a hunt ends.
pub const EYE_HEIGHT: u32 = 1350;

// ---- Starting and ending a hunt ----

/// What a baked grid says to a hunt that starts.
pub struct BakedHunt {
    pub pads: Vec<PadProbe>,
    pub yaws: Vec<i32>,
    pub marker: Option<Point>,
    /// The floor that can be stood on, and that part of it clear of the walls.
    pub standable: Vec<Point>,
    pub interior: Vec<Point>,
}

/// How the player comes into a hunt: the floor beneath the camera, and the way it looks.
pub struct HuntEntry {
    pub camera: Pose,
    /// The pad that the player drew, when the level has pads and the author wants them used.
    pub pad: Option<(Point, i32)>,
    /// The grid, if the level has one.
    pub baked: Option<BakedHunt>,
}

/// What a change of mode asks for.
pub struct ModeChange {
    /// The mode that was left for the other.
    pub changed: bool,
    /// The rigid bodies to take out of the physics.
    pub gone: Vec<u64>,
    /// Whether a wave is to come in.
    pub wave: bool,
    /// Where the camera goes and which way it looks; its `feet` are where the player's eyes were.
    pub camera: Option<Pose>,
}

/// The pose that the player enters with: the pad's, looking level, or the camera's.
pub open spec fn entry_pose(e: HuntEntry) -> Pose {
    match e.pad {
        Some((pos, yaw)) => Pose { feet: pos, yaw, pitch: 0 },
        None => e.camera,
    }
}

/// A player at the start of a round.
pub open spec fn revived(p: Player) -> Player {
    Player { respawn: 0, ..p.healed() }
}

/// A player that stands and looks as `pose` says.
pub open spec fn placed(p: Player, pose: Pose) -> Player {
    Player { pos: Some(pose.feet), yaw: pose.yaw, pitch: pose.pitch, ..p }
}

impl World {
    fn place_player(&mut self, pose: Pose)
        ensures
            *final(self) == (World { player: placed(old(self).player, pose), ..*old(self) }),
    {
        self.player.pos = Some(pose.feet);
        self.player.yaw = pose.yaw;
        self.player.pitch = pose.pitch;
    }

    /// Puts the player into the level.
    pub fn enter_player(&mut self, pad: Option<(Point, i32)>, camera: Pose)
        ensures
            ({
                let pose = match pad {
                    Some((pos, yaw)) => Pose { feet: pos, yaw, pitch: 0 },
                    None => camera,
                };
                *final(self) == (World {
                    player: placed(old(self).player, pose),
                    hunt_spawn: Some(pose),
                    ..*old(self)
                })
            }),
    {
        let pose: Pose = match pad {
            Some((pos, yaw)) => Pose { feet: pos, yaw, pitch: 0 },
            None => camera,
        };
        self.place_player(pose);
        self.hunt_spawn = Some(pose);
    }

    fn reset_scores(&mut self)
        ensures
            *final(self) == (World {
                player_score: Score { kills: 0, deaths: 0 },
                hunter_scores: final(self).hunter_scores,
                round_over: false,
                ..*old(self)
            }),
            final(self).hunter_scores@.len() == 0,
    {
        self.player_score = Score { kills: 0, deaths: 0 };
        self.hunter_scores.clear();
        self.round_over = false;
    }

    /// Drops everything that flies, lies about or sparks.
    fn clear_effects(&mut self)
        ensures
            *final(self) == (World {
                sparks: final(self).sparks,
                projectiles: final(self).projectiles,
                mines: final(self).mines,
                camp: Camp { anchor: None, timer: 0, cooldown: 0 },
                ..*old(self)
            }),
            final(self).sparks@.len() == 0,
            final(self).projectiles@.len() == 0,
            final(self).mines@.len() == 0,
    {
        self.sparks.clear();
        self.projectiles.clear();
        self.mines.clear();
        self.camp = Camp::new();
    }

    fn revive_player(&mut self)
        ensures
            *final(self) == (World { player: revived(old(self).player), ..*old(self) }),
    {
        self.player.heal();
        self.player.respawn = 0;
    }

    /// What every change of mode does, whether it succeeds or not: a part of a face that was
    /// selected is forgotten, tools are put down, the crosshair goes, the wave goes, and the player is whole.
    pub open spec fn is_switched(before: World, after: World, gone: Seq<u64>) -> bool {
        &&& after.edit == Editor {
            selected: after.edit.selected,
            tool_armed: false,
            ..before.edit.without_subface()
        }
        &&& !after.aiming
        &&& gone == bodies_held(before.hunters@)
        &&& after.hunters@.len() == 0
        &&& after.player == (Player {
            pos: after.player.pos,
            yaw: after.player.yaw,
            pitch: after.player.pitch,
            ..revived(before.player)
        })
        &&& World::is_same_but_for_the_hunt(before, after)
    }

    /// What no change of mode touches: the level and its history, the settings, what was loaded,
    /// the arsenal, the placed objects, the navigation tab and the random numbers.
    pub open spec fn is_same_but_for_the_hunt(before: World, after: World) -> bool {
        after == (World {
            mode: after.mode,
            edit: after.edit,
            aiming: after.aiming,
            hunters: after.hunters,
            player: after.player,
            caught: after.caught,
            round_over: after.round_over,
            player_score: after.player_score,
            hunter_scores: after.hunter_scores,
            spawn: after.spawn,
            doors: after.doors,
            radar_cells: after.radar_cells,
            nav_ready: after.nav_ready,
            hunt_spawn: after.hunt_spawn,
            sparks: after.sparks,
            projectiles: after.projectiles,
            mines: after.mines,
            camp: after.camp,
            ..before
        })
    }

    /// What leaving a hunt does, on top of what every change of mode does: the camera goes where
    /// the player's eyes were, and everything that belongs to the hunt goes.
    pub open spec fn is_left(before: World, after: World, change: ModeChange) -> bool {
        &&& change.changed && !change.wave
        &&& change.camera == match before.player.pos {
            Some(p) => Some(
                Pose {
                    feet: p.above(EYE_HEIGHT as int),
                    yaw: before.player.yaw,
                    pitch: before.player.pitch,
                },
            ),
            None => None,
        }
        &&& change.gone@ == bodies_held(before.hunters@)
        &&& after.mode == Mode::Build
        &&& after.edit.selected == before.edit.selected
        &&& after.player.pos is None
        &&& after.hunt_spawn is None
        &&& !after.nav_ready
        &&& !after.caught
        &&& after.hunters@.len() == 0
        &&& after.spawn.pads@.len() == 0
        &&& after.spawn.search_points@.len() == 0
        &&& after.radar_cells@.len() == 0
        &&& after.sparks@.len() == 0
        &&& after.projectiles@.len() == 0
        &&& after.mines@.len() == 0
        &&& after.doors@.len() == 0
        &&& after.camp == (Camp { anchor: None, timer: 0, cooldown: 0 })
        &&& after.round_over == before.round_over
        &&& after.player_score == before.player_score
        &&& after.hunter_scores == before.hunter_scores
    }

    /// Goes from building to hunting or back. A hunt needs floor beneath the camera; without
    /// it the mode stays. Starting one fills the pool, puts the player in and asks for a
    /// wave; ending one clears everything that belongs to it.
    pub fn toggle_mode(&mut self, entry: Option<HuntEntry>) -> (change: ModeChange)
        requires
            entry matches Some(e) ==> (e.baked matches Some(b) ==> b.yaws@.len() == b.pads@.len()),
        ensures
            World::is_switched(*old(self), *final(self), change.gone@),
            old(self).mode == Mode::Build && entry is None ==> {
                &&& *final(self) == (World {
                    edit: final(self).edit,
                    aiming: final(self).aiming,
                    hunters: final(self).hunters,
                    player: final(self).player,
                    ..*old(self)
                })
                &&& !change.changed && !change.wave && change.camera is None
                &&& final(self).mode == Mode::Build
                &&& final(self).edit.selected == old(self).edit.selected
                &&& final(self).player == revived(old(self).player)
            },
            old(self).mode == Mode::Build ==> (entry matches Some(e) ==> {
                &&& change.changed && change.camera is None
                &&& final(self).mode == Mode::Hunt
                &&& final(self).edit.selected is None
                &&& !final(self).caught
                &&& !final(self).round_over
                &&& final(self).player_score == (Score { kills: 0, deaths: 0 })
                &&& final(self).hunter_scores@.len() == 0
                &&& final(self).player == placed(revived(old(self).player), entry_pose(e))
                &&& final(self).hunt_spawn == Some(entry_pose(e))
                &&& final(self).nav_ready == (e.baked is Some)
                &&& change.wave == (e.baked is Some && old(self).settings.spawn_enemies)
                &&& e.baked matches Some(b) ==> {
                    &&& is_pad_pool(
                        b.pads@,
                        b.yaws@,
                        match b.marker {
                            Some(m) => m,
                            None => marker_pos(),
                        },
                        final(self).spawn.pads@,
                    )
                    &&& final(self).spawn.pads@.len() > 0
                    &&& final(self).spawn.point == final(self).spawn.pads@[0].pos
                    &&& final(self).doors@.len() == 0
                    &&& is_spread_pick(
                        b.standable@,
                        b.interior@,
                        final(self).spawn.point,
                        SEARCH_POINT_COUNT,
                        final(self).spawn.search_points@,
                    )
                    &&& final(self).radar_cells@ == decimated(b.standable@, b.standable@.len())
                }
                &&& e.baked is None ==> final(self).spawn == old(self).spawn && final(self).doors
                    == old(self).doors && final(self).radar_cells == old(self).radar_cells
                &&& final(self).sparks == old(self).sparks && final(self).projectiles
                    == old(self).projectiles && final(self).mines == old(self).mines && final(
                    self).camp == old(self).camp
            }),
            old(self).mode == Mode::Hunt ==> World::is_left(*old(self), *final(self), change),
    {
        self.edit.reset_subface();
        self.edit.tool_armed = false;
        self.aiming = false;
        let gone: Vec<u64> = self.despawn_wave();
        self.revive_player();
        match self.mode {
            Mode::Build => {
                let e: HuntEntry = match entry {
                    Some(e) => e,
                    None => return ModeChange { changed: false, gone, wave: false, camera: None },
                };
                self.edit.selected = None;
                self.caught = false;
                self.reset_scores();
                let ghost mid = *self;
                let wave: bool = match e.baked {
                    Some(b) => {
                        self.prepare_spawn(&b.pads, &b.yaws, b.marker, &b.standable, &b.interior);
                        self.bake_radar_cells(&b.standable);
                        self.nav_ready = true;
                        self.settings.spawn_enemies
                    },
                    None => {
                        self.nav_ready = false;
                        false
                    },
                };
                self.enter_player(e.pad, e.camera);
                self.mode = Mode::Hunt;
                ModeChange { changed: true, gone, wave, camera: None }
            },
            Mode::Hunt => {
                let camera: Option<Pose> = match self.player.pos {
                    Some(p) => Some(
                        Pose {
                            feet: p.raised(EYE_HEIGHT),
                            yaw: self.player.yaw,
                            pitch: self.player.pitch,
                        },
                    ),
                    None => None,
                };
                self.player.pos = None;
                self.nav_ready = false;
                self.hunt_spawn = None;
                self.spawn.pads.clear();
                self.spawn.search_points.clear();
                self.radar_cells.clear();
                self.caught = false;
                self.clear_effects();
                self.doors.clear();
                self.mode = Mode::Build;
                ModeChange { changed: true, gone, wave: false, camera }
            },
        }
    }
}

// ---- Restarting ----

/// A restart leaves nothing of the fight behind: the player is whole and where it started, the
/// scores are at nothing, the wave is gone with every rigid body it held, and nothing is in the
/// air. Outside a hunt it does nothing at all.
pub proof fn a_restart_is_fresh(before: World, settings: Settings, after: World, r: HuntReset)
    requires
        World::is_restarted(before, settings, after, r),
    ensures
        before.mode != Mode::Hunt ==> after == (World { settings, ..before }) && r.gone@.len() == 0
            && !r.wave,
        before.mode == Mode::Hunt ==> {
            &&& after.player.health == crate::player::PLAYER_MAX_HEALTH && !after.player.dead
            &&& before.hunt_spawn matches Some(p) ==> after.player.pos == Some(p.feet)
                && after.player.yaw == p.yaw && after.player.pitch == p.pitch
            &&& after.player_score == (Score { kills: 0, deaths: 0 })
            &&& after.hunters@.len() == 0 && r.gone@ == bodies_held(before.hunters@)
            &&& after.sparks@.len() == 0 && after.projectiles@.len() == 0 && after.mines@.len()
                == 0
            &&& r.wave == (settings.spawn_enemies && before.nav_ready)
            &&& after.mode == Mode::Hunt && after.settings == settings && after.level
                == before.level
        },
{
    reveal(World::is_restarted);
}

/// What a restart asks for.
pub struct HuntReset {
    /// The rigid bodies to take out of the physics.
    pub gone: Vec<u64>,
    /// Whether a wave is to come in.
    pub wave: bool,
}

impl World {
    /// What restarting a hunt under `settings` does to the world.
    #[verifier::opaque]
    pub open spec fn is_restarted(
        before: World,
        settings: Settings,
        after: World,
        r: HuntReset,
    ) -> bool {
        if before.mode != Mode::Hunt {
            after == (World { settings, ..before }) && r.gone@.len() == 0 && !r.wave
        } else {
            &&& after.player == match before.hunt_spawn {
                Some(pose) => placed(revived(before.player), pose),
                None => revived(before.player),
            }
            &&& !after.caught
            &&& !after.round_over
            &&& after.player_score == (Score { kills: 0, deaths: 0 })
            &&& after.hunter_scores@.len() == 0
            &&& after.sparks@.len() == 0
            &&& after.projectiles@.len() == 0
            &&& after.mines@.len() == 0
            &&& after.camp == (Camp { anchor: None, timer: 0, cooldown: 0 })
            &&& after.hunters@.len() == 0
            &&& r.gone@ == bodies_held(before.hunters@)
            &&& r.wave == (settings.spawn_enemies && before.nav_ready)
            &&& after == (World {
                settings,
                player: after.player,
                caught: after.caught,
                round_over: after.round_over,
                player_score: after.player_score,
                hunter_scores: after.hunter_scores,
                sparks: after.sparks,
                projectiles: after.projectiles,
                mines: after.mines,
                camp: after.camp,
                hunters: after.hunters,
                ..before
            })
        }
    }

    /// Starts the hunt over without leaving it: the player whole and back where it started,
    /// the scores at nothing, nothing in the air, and the wave gone, for another to come in.
    /// Nothing happens outside a hunt.
    pub fn restart_hunt(&mut self) -> (r: HuntReset)
        ensures
            World::is_restarted(*old(self), old(self).settings, *final(self), r),
    {
        proof {
            reveal(World::is_restarted);
        }
        if self.mode != Mode::Hunt {
            return HuntReset { gone: Vec::new(), wave: false };
        }
        self.revive_player();
        self.caught = false;
        self.reset_scores();
        if let Some(pose) = self.hunt_spawn {
            self.place_player(pose);
        }
        self.clear_effects();
        let gone: Vec<u64> = self.despawn_wave();
        HuntReset { gone, wave: self.settings.spawn_enemies && self.nav_ready }
    }

    /// Sets the difficulty dial and, if that moves it, starts the hunt over.
    pub fn set_difficulty(&mut self, level: u32) -> (r: Option<HuntReset>)
        ensures
            ({
                let to = clamp_to(level as int, 0, DIFFICULTY_MAX as int) as u32;
                let set = Settings { difficulty: to, ..old(self).settings };
                &&& r is Some <==> to != old(self).settings.difficulty
                &&& r is None ==> *final(self) == *old(self)
                &&& r matches Some(x) ==> World::is_restarted(
                    *old(self),
                    set,
                    *final(self),
                    x,
                )
            }),
            old(self).settings.wf() ==> final(self).settings.wf(),
    {
        let to: u32 = if level > DIFFICULTY_MAX {
            DIFFICULTY_MAX
        } else {
            level
        };
        self.dial_difficulty(to)
    }

    pub(crate) fn put_settings(&mut self, settings: Settings)
        ensures
            *final(self) == (World { settings, ..*old(self) }),
    {
        self.settings = settings;
    }

    /// Starts the hunt over under other settings.
    fn start_over(&mut self, settings: Settings) -> (r: HuntReset)
        ensures
            World::is_restarted(*old(self), settings, *final(self), r),
            final(self).settings == settings,
    {
        proof {
            reveal(World::is_restarted);
        }
        self.put_settings(settings);
        self.restart_hunt()
    }

    fn dial_difficulty(&mut self, to: u32) -> (r: Option<HuntReset>)
        requires
            to <= DIFFICULTY_MAX,
        ensures
            ({
                let set = Settings { difficulty: to, ..old(self).settings };
                &&& r is Some <==> to != old(self).settings.difficulty
                &&& r is None ==> *final(self) == *old(self)
                &&& r matches Some(x) ==> World::is_restarted(
                    *old(self),
                    set,
                    *final(self),
                    x,
                )
            }),
            old(self).settings.wf() ==> final(self).settings.wf(),
    {
        if to == self.settings.difficulty {
            return None;
        }
        let settings: Settings = self.settings.at_difficulty(to);
        Some(self.start_over(settings))
    }

    /// Nudges the difficulty dial and, if that moves it, starts the hunt over.
    pub fn change_difficulty(&mut self, delta: i32) -> (r: Option<HuntReset>)
        ensures
            ({
                let to = clamp_to(
                    old(self).settings.difficulty + delta,
                    0,
                    DIFFICULTY_MAX as int,
                ) as u32;
                let set = Settings { difficulty: to, ..old(self).settings };
                &&& r is Some <==> to != old(self).settings.difficulty
                &&& r is None ==> *final(self) == *old(self)
                &&& r matches Some(x) ==> World::is_restarted(
                    *old(self),
                    set,
                    *final(self),
                    x,
                )
            }),
            old(self).settings.wf() ==> final(self).settings.wf(),
    {
        let to: u32 = self.settings.nudged_difficulty(delta);
        self.dial_difficulty(to)
    }

    /// Nudges the wave-size dial and, if that moves it, starts the hunt over.
    pub fn change_wave_size(&mut self, delta: i32) -> (r: Option<HuntReset>)
        ensures
            ({
                let to = clamp_to(
                    old(self).settings.wave_size + delta,
                    1,
                    WAVE_SIZE_MAX as int,
                ) as usize;
                let set = Settings { wave_size: to, ..old(self).settings };
                &&& r is Some <==> to != old(self).settings.wave_size
                &&& r is None ==> *final(self) == *old(self)
                &&& r matches Some(x) ==> World::is_restarted(
                    *old(self),
                    set,
                    *final(self),
                    x,
                )
            }),
            old(self).settings.wf() ==> final(self).settings.wf(),
    {
        let to: usize = self.settings.nudged_wave_size(delta);
        self.dial_wave_size(to)
    }

    fn dial_wave_size(&mut self, to: usize) -> (r: Option<HuntReset>)
        requires
            to >= 1,
        ensures
            ({
                let set = Settings { wave_size: to, ..old(self).settings };
                &&& r is Some <==> to != old(self).settings.wave_size
                &&& r is None ==> *final(self) == *old(self)
                &&& r matches Some(x) ==> World::is_restarted(
                    *old(self),
                    set,
                    *final(self),
                    x,
                )
            }),
            old(self).settings.wf() ==> final(self).settings.wf(),
    {
        if to == self.settings.wave_size {
            return None;
        }
        let settings: Settings = self.settings.at_wave_size(to);
        Some(self.start_over(settings))
    }

    /// Switches hunters off or on. Off clears the wave of a hunt at once; on asks for one to
    /// come in.
    pub fn toggle_hunters(&mut self) -> (r: HuntReset)
        ensures
            final(self).settings == (Settings {
                hunters_enabled: !old(self).settings.hunters_enabled,
                ..old(self).settings
            }),
            *final(self) == (World {
                settings: final(self).settings,
                hunters: final(self).hunters,
                ..*old(self)
            }),
            old(self).mode != Mode::Hunt || !old(self).settings.hunters_enabled ==> final(
                self).hunters == old(self).hunters && r.gone@.len() == 0,
            old(self).mode == Mode::Hunt && old(self).settings.hunters_enabled ==> final(
                self).hunters@.len() == 0 && r.gone@ == bodies_held(old(self).hunters@),
            r.wave == (old(self).mode == Mode::Hunt && !old(self).settings.hunters_enabled && old(
                self).nav_ready),
    {
        self.settings.hunters_enabled = !self.settings.hunters_enabled;
        if self.mode != Mode::Hunt {
            return HuntReset { gone: Vec::new(), wave: false };
        }
        if !self.settings.hunters_enabled {
            let gone: Vec<u64> = self.despawn_wave();
            HuntReset { gone, wave: false }
        } else {
            HuntReset { gone: Vec::new(), wave: self.nav_ready }
        }
    }

    /// Brings a dead player back to building. Nothing happens to a living one.
    pub fn restart_after_death(&mut self) -> (change: Option<ModeChange>)
        ensures
            !old(self).player.dead ==> change is None && *final(self) == *old(self),
            old(self).player.dead && old(self).mode == Mode::Build ==> change is None && *final(
                self) == (World { player: old(self).player.healed(), ..*old(self) }),
            old(self).player.dead && old(self).mode == Mode::Hunt ==> (change matches Some(c)
                && World::is_left(*old(self), *final(self), c) && World::is_switched(
                *old(self),
                *final(self),
                c.gone@,
            )),
    {
        if !self.player.dead {
            return None;
        }
        self.player.heal();
        if self.mode == Mode::Hunt {
            Some(self.toggle_mode(None))
        } else {
            None
        }
    }
}

/// A hunt is entered on the pad, facing its way and looking level, or from where the camera is.
pub proof fn a_hunt_is_entered_on_a_pad(e: HuntEntry)
    ensures
        e.pad matches Some((pos, yaw)) ==> entry_pose(e).feet == pos && entry_pose(e).yaw == yaw
            && entry_pose(e).pitch == 0,
        e.pad is None ==> entry_pose(e) == e.camera,
{
}

/// A revived player is whole and waits for nothing; one that is placed stands and looks as the
/// pose says, and is otherwise as it was.
pub proof fn players_are_revived_and_placed(p: Player, pose: Pose)
    ensures
        revived(p).health == 100_000 && revived(p).armor == 0 && !revived(p).dead && revived(
            p,
        ).respawn == 0 && revived(p).damage_flash == 0 && revived(p).hud_show_timer == 0,
        revived(p).pos == p.pos && revived(p).invulnerable == p.invulnerable && revived(p).invisible
            == p.invisible,
        placed(p, pose).pos == Some(pose.feet) && placed(p, pose).yaw == pose.yaw && placed(
            p,
            pose,
        ).pitch == pose.pitch,
        placed(p, pose) == (Player { pos: Some(pose.feet), yaw: pose.yaw, pitch: pose.pitch, ..p }),
{
}

/// Leaving a hunt leaves nothing of it behind: no player, hunter, round, mine, spark, door, camp,
/// search place or radar, while the level, the dials and the scores stay. The camera goes to
/// where the player's eyes were, 1.35 m up, and looks as the player did.
pub proof fn leaving_a_hunt_leaves_nothing_behind(before: World, after: World, change: ModeChange)
    requires
        World::is_left(before, after, change),
        World::is_switched(before, after, change.gone@),
    ensures
        after.mode == Mode::Build && change.changed && !change.wave,
        after.player.pos is None && after.player.health == 100_000 && !after.player.dead,
        after.hunters@.len() == 0 && after.projectiles@.len() == 0 && after.mines@.len() == 0
            && after.sparks@.len() == 0 && after.doors@.len() == 0,
        after.spawn.pads@.len() == 0 && after.spawn.search_points@.len() == 0
            && after.radar_cells@.len() == 0 && !after.nav_ready && !after.caught
            && after.hunt_spawn is None,
        after.camp.anchor is None && after.camp.timer == 0 && after.camp.cooldown == 0,
        !after.aiming && after.edit.active is None && after.edit.sel_bounds is None
            && !after.edit.tool_armed && after.edit.selected == before.edit.selected,
        after.level == before.level && after.settings == before.settings && after.arms
            == before.arms && after.undo_stack == before.undo_stack && after.redo_stack
            == before.redo_stack && after.revision == before.revision,
        after.player_score == before.player_score && after.hunter_scores == before.hunter_scores
            && after.round_over == before.round_over,
        before.player.pos matches Some(p) ==> (change.camera matches Some(c) && c.feet == p.above(
            1350,
        ) && c.yaw == before.player.yaw && c.pitch == before.player.pitch),
        before.player.pos is None ==> change.camera is None,
{
}

/// Whichever way the mode goes, every rigid body that a hunter held is let go and none that was
/// not held.
pub proof fn a_mode_change_lets_every_body_go(before: World, after: World, gone: Seq<u64>, b: u64)
    requires
        World::is_switched(before, after, gone),
    ensures
        gone.contains(b) <==> exists|i: int|
            0 <= i < before.hunters@.len() && ((#[trigger] before.hunters@[i]).ragdoll == Some(b)
                || before.hunters@[i].reaction == Some(b)),
        after.hunters@.len() == 0,
{
    let hs = before.hunters@;
    let bare = hs.map_values(|h: crate::hunter::Hunter| crate::hunt::disembodied(h));
    crate::hunt::only_what_was_let_go_is_removed(hs, bare, hs.len(), b);
}

/// A restart in a hunt puts the player back where the hunt began, whole, and clears the field, the
/// scores and the camp, and keeps everything else.
pub proof fn a_restart_clears_the_field(
    before: World,
    settings: Settings,
    after: World,
    r: HuntReset,
)
    requires
        World::is_restarted(before, settings, after, r),
        before.mode == Mode::Hunt,
    ensures
        !after.player.dead && after.player.health == 100_000 && after.player.armor == 0,
        before.hunt_spawn is None ==> after.player.pos == before.player.pos,
        before.hunt_spawn matches Some(pose) ==> after.player.pos == Some(pose.feet)
            && after.player.yaw == pose.yaw && after.player.pitch == pose.pitch,
        after.hunters@.len() == 0 && after.projectiles@.len() == 0 && after.mines@.len() == 0
            && after.sparks@.len() == 0,
        r.wave <==> settings.spawn_enemies && before.nav_ready,
        after.settings == settings && after.mode == Mode::Hunt,
        !after.caught && !after.round_over && after.hunter_scores@.len() == 0
            && after.player_score.kills == 0 && after.player_score.deaths == 0,
        after.camp.anchor is None && after.camp.timer == 0 && after.camp.cooldown == 0,
        after.level == before.level && after.arms == before.arms && after.edit == before.edit
            && after.spawn == before.spawn && after.doors == before.doors && after.radar_cells
            == before.radar_cells && after.nav_ready == before.nav_ready && after.hunt_spawn
            == before.hunt_spawn,
{
    reveal(World::is_restarted);
}

/// A restart lets every rigid body go that a hunter held and none that was not held.
pub proof fn a_restart_lets_every_body_go(
    before: World,
    settings: Settings,
    after: World,
    r: HuntReset,
    b: u64,
)
    requires
        World::is_restarted(before, settings, after, r),
        before.mode == Mode::Hunt,
    ensures
        r.gone@.contains(b) <==> exists|i: int|
            0 <= i < before.hunters@.len() && ((#[trigger] before.hunters@[i]).ragdoll == Some(b)
                || before.hunters@[i].reaction == Some(b)),
{
    reveal(World::is_restarted);
    let hs = before.hunters@;
    let bare = hs.map_values(|h: crate::hunter::Hunter| crate::hunt::disembodied(h));
    crate::hunt::only_what_was_let_go_is_removed(hs, bare, hs.len(), b);
}

/// Outside a hunt a restart changes the settings and nothing else.
pub proof fn there_is_nothing_to_restart_outside_a_hunt(
    before: World,
    settings: Settings,
    after: World,
    r: HuntReset,
)
    requires
        World::is_restarted(before, settings, after, r),
        before.mode == Mode::Build,
    ensures
        after == (World { settings, ..before }),
        r.gone@.len() == 0 && !r.wave,
{
    reveal(World::is_restarted);
}

} // verus!
