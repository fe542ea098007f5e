//! The state of the game.
use std::collections::HashMap;

use hecs::World as EcsWorld;
use vstd::prelude::*;

use crate::arms::{bare_hands, stocked, Armory, Gun};
use crate::combat::{Camp, ClipTables, Spark};
use crate::editing::Editor;
use crate::explosives::{Mine, Projectile};
use crate::hunt::BreakableDoor;
use crate::hunter::{AiMode, Hunter};
use crate::level::{Level, LevelView};
use crate::nav_survey::NavPanel;
use crate::pack::{marker_pos, spawn_marker, SpawnPool};
use crate::player::Player;
use crate::props::{empty_ecs, objects_in};
use crate::settings::{Bodies, BodySet, Settings, ENEMY_COUNT};
use crate::space::Point;

verus! {

/// The two phases of the game.
#[derive(Clone, Copy, PartialEq, Eq, Debug, Structural)]
pub enum Mode {
    /// Flying through the level and editing it.
    Build,
    /// On foot, being hunted.
    Hunt,
}

/// One side's tally of a round.
#[derive(Clone, Copy, PartialEq, Eq, Debug, Structural)]
pub struct Score {
    pub kills: u32,
    pub deaths: u32,
}

/// Where the player stands and which way it looks.
#[derive(Clone, Copy, PartialEq, Eq, Debug, Structural)]
pub struct Pose {
    pub feet: Point,
    pub yaw: i32,
    pub pitch: i32,
}

pub struct World {
    pub mode: Mode,
    pub level: Level,
    pub edit: Editor,
    /// Earlier states of the level, the latest last.
    pub undo_stack: Vec<Level>,
    /// States that were stepped back from, the next one last.
    pub redo_stack: Vec<Level>,
    /// A number that changes with every change of the level.
    pub revision: u64,
    pub settings: Settings,
    pub bodies: Bodies,
    pub tables: ClipTables,
    pub player: Player,
    pub arms: Armory,
    pub hunters: Vec<Hunter>,
    pub projectiles: Vec<Projectile>,
    pub mines: Vec<Mine>,
    pub sparks: Vec<Spark>,
    pub camp: Camp,
    /// The placed objects of the level.
    pub ecs: EcsWorld,
    /// Which object each solid capsule of the level belongs to.
    pub prop_colliders: HashMap<u64, u64>,
    pub doors: Vec<BreakableDoor>,
    /// Where bodies enter, and where hunters are sent to look.
    pub spawn: SpawnPool,
    /// The floor that the radar shows.
    pub radar_cells: Vec<Point>,
    /// Where the player started the hunt.
    pub hunt_spawn: Option<Pose>,
    pub caught: bool,
    pub player_score: Score,
    pub hunter_scores: Vec<Score>,
    /// Whether the round has been won.
    pub round_over: bool,
    /// Whether there is a grid for the hunters to walk.
    pub nav_ready: bool,
    pub nav: NavPanel,
    /// Whether the free crosshair is up.
    pub aiming: bool,
    /// The random numbers of hits and reactions.
    pub char_rng: u64,
}

/// What is loaded before a game starts.
pub struct Assets {
    pub bodies: Bodies,
    pub tables: ClipTables,
    pub guns: Vec<Gun>,
    pub own_all: bool,
    /// What a kill pays, and how many magazines one purchase of ammunition holds.
    pub bounty: u32,
    pub ammo_mags: u32,
    pub ai_mode: AiMode,
    pub unarmed_hunters: bool,
    pub anim_debug: bool,
}

impl World {
    /// What every operation keeps of the parts that have an invariant.
    pub open spec fn wf(self) -> bool {
        &&& self.edit.wf()
        &&& self.history().wf()
        &&& self.settings.wf()
        &&& self.bodies.wf()
        &&& self.player.wf()
        &&& self.arms.wf()
    }

    /// A new game: building, one empty room, nobody about, and the player empty-handed where
    /// the arsenal has that.
    pub fn new(assets: Assets) -> (w: World)
        requires
            assets.bodies.wf(),
            assets.guns@.len() > 0,
        ensures
            w.wf(),
            w.mode == Mode::Build,
            w.level@ == LevelView::fresh(marker_pos()),
            w.edit == Editor::fresh(),
            w.undo_stack@.len() == 0,
            w.redo_stack@.len() == 0,
            w.revision == 0,
            w.settings == (Settings {
                difficulty: 0,
                wave_size: ENEMY_COUNT,
                body_set: BodySet::All,
                goldeneye_clips: false,
                pd_lab: false,
                tier: None,
                hit_reactions: false,
                authored_reactions: true,
                local_avoidance: true,
                head_look: true,
                foot_ik: true,
                ragdoll: true,
                wall_clearance: true,
                utility_ai: true,
                pd_omniscience: true,
                grenades: false,
                ai_mode: assets.ai_mode,
                spawn_enemies: true,
                hunters_enabled: true,
                unarmed_hunters: assets.unarmed_hunters,
                anim_debug: assets.anim_debug,
            }),
            w.bodies == assets.bodies,
            w.tables == assets.tables,
            w.player == Player::fresh(),
            w.arms.guns@ == stocked(assets.guns@, assets.own_all),
            w.arms.index == bare_hands(assets.guns@, 0),
            w.arms.owned@ == Seq::new(
                assets.guns@.len(),
                |i: int| assets.own_all || i == w.arms.index,
            ),
            w.arms.credits == 0,
            !w.arms.switching,
            w.arms.switch_target == 0,
            w.arms.switch_timer == 0,
            !w.arms.switch_swapped,
            !w.arms.models_dirty,
            w.arms.bounty == assets.bounty,
            w.arms.ammo_mags == assets.ammo_mags,
            w.hunters@.len() == 0,
            w.projectiles@.len() == 0,
            w.mines@.len() == 0,
            w.sparks@.len() == 0,
            w.camp == (Camp { anchor: None, timer: 0, cooldown: 0 }),
            w.doors@.len() == 0,
            w.spawn.pads@.len() == 0,
            w.spawn.search_points@.len() == 0,
            w.spawn.point == marker_pos(),
            w.radar_cells@.len() == 0,
            w.hunt_spawn is None,
            !w.caught,
            w.player_score == (Score { kills: 0, deaths: 0 }),
            w.hunter_scores@.len() == 0,
            !w.round_over,
            !w.nav_ready,
            w.nav == (NavPanel {
                issues: None,
                overlay: None,
                overlay_on: false,
                overlay_rev: 0,
            }),
            !w.aiming,
            w.char_rng == 0x9E37_79B9_7F4A_7C15,
            w.prop_colliders@ == Map::<u64, u64>::empty(),
            forall|e: u64| !objects_in(w.ecs).contains_key(e),
    {
        World {
            mode: Mode::Build,
            level: Level::new(spawn_marker()),
            edit: Editor::new(),
            undo_stack: Vec::new(),
            redo_stack: Vec::new(),
            revision: 0,
            settings: Settings::new(assets.ai_mode, assets.unarmed_hunters, assets.anim_debug),
            bodies: assets.bodies,
            tables: assets.tables,
            player: Player::new(),
            arms: Armory::new(
                assets.guns,
                assets.own_all,
                assets.bounty,
                assets.ammo_mags,
            ),
            hunters: Vec::new(),
            projectiles: Vec::new(),
            mines: Vec::new(),
            sparks: Vec::new(),
            camp: Camp::new(),
            ecs: empty_ecs(),
            prop_colliders: HashMap::new(),
            doors: Vec::new(),
            spawn: SpawnPool {
                pads: Vec::new(),
                point: spawn_marker(),
                search_points: Vec::new(),
            },
            radar_cells: Vec::new(),
            hunt_spawn: None,
            caught: false,
            player_score: Score { kills: 0, deaths: 0 },
            hunter_scores: Vec::new(),
            round_over: false,
            nav_ready: false,
            nav: NavPanel::new(),
            aiming: false,
            char_rng: 0x9E37_79B9_7F4A_7C15,
        }
    }
}

} // verus!
