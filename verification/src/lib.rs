//! A small real-time presentation engine: a fixed-resolution pixel canvas with
//! clipped drawing primitives, integer upscaling onto a display surface, a
//! key-state tracker and the tick scheduler that ties them together.

pub mod color;
pub mod console;
pub mod coverage;
pub mod geometry;
pub mod graphics;
pub mod ink;
pub mod input;
pub mod line;
pub mod pattern;
pub mod presentation;
pub mod scheduler;
pub mod sprite;

pub use crate::console::{Audio, Console, Game, Save};
pub use crate::geometry::{Point, Rect};
pub use crate::graphics::Graphics;
pub use crate::input::{Input, InputEvent, KeyState};
pub use crate::presentation::Surface;
pub use crate::scheduler::{Action, Phase, Scheduler, Signal};
pub use crate::sprite::Sprite;
