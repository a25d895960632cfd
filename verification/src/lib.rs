//! Terminal display engine: an addressable character-cell grid with
//! per-cell visual attributes, fed by an ANSI/VT-style escape-sequence
//! interpreter, with scrollback through a ring of rows and an incremental
//! redraw planner for a pixel display whose hardware scroll window does not
//! evenly divide the glyph cell height.

pub mod cell;
pub mod line;
pub mod cluster;
pub mod font;
pub mod model;
pub mod action;
pub mod parser;
pub mod screen;
pub mod paint;
pub mod laws;
pub mod keys;
pub mod editor;
pub mod clock;

pub use cell::Attributes;
pub use cluster::{Cluster, ClusterIter};
pub use keys::{BatteryStatus, Key, KeyBoardState, KeyReport, KeyState, Modifiers};
pub use editor::LineEditor;
pub use clock::UnixTime;
pub use line::Line;
pub use model::ScreenModel;
pub use screen::Screen;
