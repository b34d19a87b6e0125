# learnopengl

The plain-value logic of the LearnOpenGL sample collection, verified with Verus, and the
OpenGL, window, file and floating-point side around it.

- `src/` — the verified library:
  - `filesystem`: resolving resource paths against the repository root;
  - `util::image`: choosing an image format from content or extension, decoding through the
    `image` crate, RGB/RGBA conversion and vertical flipping;
  - `resource_manager`, `shader`, `texture`, `sprite_renderer`, `post_processor`: the named
    shader and texture registries and the plain state of the Breakout renderers;
  - `level_format`, `game_level`: the Breakout level file format and the bricks built from it;
  - `game`, `power_up`, `particle_generator`: the Breakout rules (menu and keys, lives, levels,
    bricks, power-ups) and the particle slot choice;
  - `mesh`, `model`: sampler uniform names of mesh textures and the texture cache of models;
  - `debug_output`: the report printed for an OpenGL debug message;
  - `shader_m`, `camera`: the program handle and movement commands of the samples.
- `tests/` — tests of the library on concrete values.
- `app/` — the rest: file reading, OpenGL objects, the float vector helpers, the camera,
  mesh drawing, the debug callback and the Breakout game's bodies and renderers.
