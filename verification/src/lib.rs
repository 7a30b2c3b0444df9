//! Verified logic of the braille-display applets and the speech service.
pub mod text;
pub mod input;
pub mod chunk;
pub mod tetris;
pub mod cross_memory;
pub mod memo;
pub mod brf;
pub mod find_dot;
pub mod speech;
pub mod tactile_game;
pub mod audio_test;
pub mod clock;
pub mod rhythm;
pub mod demo;
pub mod drawing_game;
pub mod graph;
pub mod weather;
pub mod launcher;
pub mod audio_service;
pub mod tactile_test;
pub mod settings;
pub mod small_apps;
pub mod tetris_draw;
pub mod tactile_draw;
pub mod dot_drawing;
