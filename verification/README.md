# hunt_world

The rules of a two-phase shooter: a level is built from boxes, then hunted through on foot.

- `brush`, `level`, `editing`, `history` — boxes on a grid, rooms, moving and carving faces,
  textures, undo and redo.
- `world`, `controls` — the state of the game, and its switches and readouts.
- `settings`, `wave`, `pack`, `lifecycle`, `step` — the dials, who comes in a wave, how the pack
  spreads, calls and keeps apart, the course of a hunt, and one step of it.
- `hunter`, `player`, `arms`, `combat`, `gunfire`, `explosives`, `props` — firing, being hit,
  the shop, noise, grenades, mines and chain reactions, and what a shot does to placed objects.
- `hunt`, `rig` — what is animated and drawn, corpses, doors, skeletons.
- `nav_issues`, `nav_survey` — the navigation report and its overlay.
- `jank` — a watch on the hunters for behaviour that looks broken.
- `space`, `ticks`, `text`, `rng` — points, time, numbers as text, random numbers.

Lengths in the world are whole millimetres, lengths in the editor whole grid units, time is
counted in ticks of 1/1200 s, and health in thousandths of a point. Everything in `src/` carries
a contract that Verus proves. The few calls that leave the crate are to `hecs`, which holds the
placed objects, and to two appending functions of `String`.

`app/` is the ordinary Rust around it: floating-point geometry, the loop that asks a host for
physics, navigation and sound, and the keys of the editor.
