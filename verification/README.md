# ray_caster

A small ray-caster game set in a psychedelic arena: an open floor inside a wall
border, blocks of coloured walls, a mushroom-shaped target that inverts the world
(colours and controls) each time it is hit, and a goal in the far corner.

- `src/` is the verified library (Verus): the level grid and its connectivity, the
  cell walk of the rays, the framebuffer primitives, the bitmap font, the minimap,
  the HUD, the title and level-completed panels, the colour inversion, the game's
  state machine and the reading of the movement keys.
- `app/` is the program around it: the window and input (`minifb`), the music
  (`rodio`), and everything computed in floating point (player movement, ray
  geometry, textures, sprites, the 3D view).
- `tests/` runs the library on concrete values.

Controls: W/S or the arrows to move, A/D to strafe, the left/right arrows or the
mouse to turn, left click or F to shoot, Enter or Space to start, R to restart
after the goal, Esc to quit. The music is read from `assets/background_music.wav`.
