# game_logic

The rules of three small terminal programs, verified with Verus:

- `tree_house`: a doorman with a guest list. Known names are greeted with a
  reply that depends on the guest's diet; strangers are registered through a
  short dialogue (name, greeting, diet, allergen).
- `flappy`: Flappy Dragon. The dragon's column and row, the walls, the score
  and the rounds' modes. The dragon's speed and the frame clock are floating
  point and stay with the program that runs the game.
- `raycaster`: the tile grid of a ray caster, which cells count as walls for
  rays crossing column and row boundaries, and the cells of the 2D view.

`src/` is the verified library. `app/` holds the three programs (terminal
input and output, bracket-lib's window and game loop, and the floating-point
camera and rays); run it with `tree_house`, `flappy_dragon` or `raycaster` as
its argument. `tests/` exercises the library on concrete values.
