//! Frame pacing, hardware input, accessibility and Metal frame planning for windows on Apple
//! platforms, as pure decisions over plain values.

pub mod a11y;
pub mod a11y_laws;
pub mod a11y_tree;
pub mod described;
pub mod draw_laws;
pub mod frame_encoding;
pub mod frame_laws;
pub mod frame_memory_laws;
pub mod frame_model;
pub mod frame_pacing;
pub mod hardware_keyboard;
pub mod hold_laws;
pub mod injection;
pub mod instance_buffer;
pub mod instance_laws;
pub mod key_laws;
pub mod keyboard_laws;
pub mod link_laws;
pub mod metal_renderer;
pub mod outcome_laws;
pub mod placement_laws;
pub mod presentation_laws;
pub mod presentation_pacing;
pub mod readback;
pub mod reading_laws;
pub mod render_commands;
pub mod renderer_laws;
pub mod scene;
pub mod surfaces;
pub mod text;
pub mod textures;
pub mod time;
