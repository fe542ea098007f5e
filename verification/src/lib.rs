//! The rules of a build-then-hunt shooter: level editing, the hunter wave, gunfire,
//! explosives, and the navigation report. Lengths are whole millimetres in world space
//! and whole grid units in the editor; time is counted in ticks.
pub mod arms;
pub mod brush;
pub mod combat;
pub mod controls;
pub mod editing;
pub mod explosives;
pub mod gunfire;
pub mod history;
pub mod hunt;
pub mod hunter;
pub mod jank;
pub mod level;
pub mod lifecycle;
pub mod nav_issues;
pub mod nav_survey;
pub mod pack;
pub mod player;
pub mod props;
pub mod rig;
pub mod rng;
pub mod settings;
pub mod space;
pub mod step;
pub mod text;
pub mod ticks;
pub mod wave;
pub mod world;
