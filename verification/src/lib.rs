//! The decisions of a monitor that watches a room of rhythm-game players: who plays, who is ready,
//! whose playback waits for missing judges, and what is shown.
//!
//! All times are whole nanoseconds. Screen coordinates and accuracies are carried as bit patterns.
pub mod args;
pub mod chart;
pub mod clock_laws;
pub mod config;
pub mod dir;
pub mod entity;
pub mod fps;
pub mod frame_laws;
pub mod init;
pub mod input_laws;
pub mod judge;
pub mod labels;
pub mod laws;
pub mod layout;
pub mod pause;
pub mod player;
pub mod ready;
pub mod room;
pub mod roster;
pub mod round_laws;
pub mod scene;
pub mod scene_laws;
pub mod scores;
pub mod screen;
pub mod state;
pub mod task_laws;
pub mod text;
pub mod text_laws;
pub mod time;
pub mod touch;
