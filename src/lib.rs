//! Decoding, storing and drawing of generated rooms.
//!
//! A generator program writes a JSON document naming one room and its terrain
//! grid. This library decodes that document, keeps the decoded rooms by name,
//! turns the latest room into coloured tiles, keeps the camera's pan and zoom,
//! and sequences these steps with a small state machine.

pub mod json;
pub mod room;
pub mod store;
pub mod render;
pub mod camera;
pub mod state;
pub mod session;

pub use json::Json;
pub use room::{decode, decode_document, DecodeError, Room};
pub use store::MapStore;
pub use render::{color_of, render, Rgb, Tile, ORIGIN_X, ORIGIN_Y, TILE_SIZE};
pub use camera::{CameraState, DEFAULT_ZOOM, MAX_ZOOM, MIN_ZOOM};
pub use state::{AppState, Event};
pub use session::{GeneratorPaths, ProcessResult, RunError, RunRequest, Session};
