# wgpu_owo

The game logic of a series of small pixel-art demos, verified with Verus,
and the window program that runs them.

- `src/` is the verified library: entity slots and component storage
  (`ecs`), sprite-sheet cells and flowers (`sprite`), the animation tables
  (`animation`), grid worlds (`grid`, `colour`), key and mouse state and
  the pause rules of the main loop (`input`), and the commands planned each
  frame (`command`).
- `app/` is the program: window and input events (winit), rendering
  (wgpu), sound (rodio), and the parts of each demo that compute with
  floating-point positions and times. Run it with a scene name:
  `collision` (default), `animation`, `flowers`, `grid`, `snow`, `space`.
- `tests/` exercises the library.
