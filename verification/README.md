# classic_games

Game logic of three small games, written in Verus with its behaviour stated
in contracts and proved:

- `catacomb_ii`: the platform library and play logic of Catacomb II — PC
  speaker sound emulation, random numbers, keyboard/mouse/joystick control,
  demo recording and playback, control panel and high score files, the
  screen in its CGA/EGA/VGA encodings, character windows and text printing,
  the side panel, items, doors, objects' shapes in the level view,
  the start of a level (its map, objects, play window, restart point and
  level number), the game's flow from title page through demo and play to
  game over, the function-key dialogues (help, control panel, reset, save,
  load, pause, quit) as a step function, saved games, the help pages, and
  the start-up tile priorities and wall border; and the play itself: what
  an object meets in a cell it steps into (floor, walls, crumbling walls,
  items, doors, treasure, other objects and the damage contact does), the
  one-cell step, monsters chasing and throwing, missiles in flight, the
  other objects' turns, the sweep of turns through the object table, the
  player's frame (steps, facing, strafing, shooting, item keys and
  cheats), what follows a level, missiles, the nuke spell and explosions.
  The play loop's waiting, drawing and dialogues are the caller's: the
  library hands back at each point (the player's turn, a function key, the
  end of a level) what to do next.
- `cavern`: the Cavern platformer — actors, gravity and collisions with the
  level grid, orbs, bolts, fruit, robots, the level set-up and the screen
  state machine, and the layout of the status line.
- `roguelike`: the components of a small roguelike.
- `int_math`: machine-integer division and decimal text.

`src/` is the verified library, `tests/` its tests, and `app/` the window,
input, sound and file handling around it (SDL2 for Catacomb II, macroquad
for Cavern), which the library leaves to the caller: it takes events, file
contents and device readings as plain values and hands back what to show,
play or save.
