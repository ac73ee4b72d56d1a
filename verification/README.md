# Orbital

A simple 2D space flight simulator built on Bevy. The crate is split in two:

- `src/` is a library verified with Verus. It holds the rules of the game that do not depend on
  floating-point physics: the time warp ladder and the ceilings imposed on it
  (`timewarp`), camera view modes, camera orientation and focus cycling (`camera`), the
  discrete vessel controls and SAS direction lock (`vessel`), the decisions behind the HUD
  widgets (`hud`), the mission clock and countdown readouts with zero-padded numbers
  (`readout`), and a small `minmax_by_key` helper (`util`). Each public function carries a
  contract, and the laws that relate several operations (for instance, that stepping the time
  warp up and back down restores it, or that a ceiling set from a listed factor is never
  exceeded) are stated and proved as public proof functions.
- `app/` is the Bevy program: plugins, systems, rendering, audio, the floating-point physics and
  orbital mechanics, and input handling. Its systems read the ECS state, hand plain values to
  the library, and apply what the library decides.

Entities are passed to the library as their `to_bits` identifiers, and the time warp factors,
which are all whole numbers, as `u32`.

## Keybinds

| Key | Action |
| --- | --- |
| `a` / `d` | Rotate counter-clockwise / clockwise |
| Left Shift / Left Ctrl | Increase / decrease throttle |
| `z` / `x` | Full / cut throttle |
| `[` / `]` | Previous / next vessel |
| `t` | Toggle SAS |
| `p` / `r` / `i` / `o` | SAS prograde / retrograde / radial-in / radial-out |
| Space | Fire photon |
| `-` / `=` | Zoom out / in |
| Arrow keys | Pan camera |
| F4 | Unlock camera |
| `v` | Next camera view |
| `,` / `.` | Time warp decrease / increase |
| `/` | Pause |
| F8 | Show/hide orbits |
| F12 | Show/hide developer tools |
