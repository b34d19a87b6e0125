//! Plain-value logic of the LearnOpenGL sample collection: resource paths,
//! image decoding and orientation, resource registries, the Breakout level
//! format and the Breakout game rules.

pub mod filesystem;
pub mod util;
pub mod shader;
pub mod texture;
pub mod sprite_renderer;
pub mod post_processor;
pub mod resource_manager;
pub mod shader_m;
pub mod camera;
pub mod level_format;
pub mod game_level;
pub mod power_up;
pub mod game;
pub mod particle_generator;
pub mod mesh;
pub mod model;
pub mod debug_output;
pub mod sphere;
