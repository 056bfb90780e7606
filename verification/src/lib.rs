//! A first-person camera controller, verified.
//!
//! The controller turns per-frame input (held keys, mouse-motion deltas, a
//! cursor-grab toggle) into a camera transform: a world position plus a
//! yaw/pitch orientation.  All quantities are fixed-point counts of
//! millionths (`math::MICRO`), so every routine here is exact integer
//! arithmetic with a proved contract.  The rendering engine around the
//! controller — window, scheduler, trigonometry for reconstructing a rotation
//! from yaw and pitch — stays outside; the controller exchanges plain scalar
//! values with it.

pub mod config;
pub mod grab;
pub mod input;
pub mod look;
pub mod math;
pub mod motion;
pub mod player;

pub use config::KeyBinds;
pub use config::MouseSettings;
pub use grab::grab_cursor;
pub use grab::init_cursor_grab;
pub use grab::toggle_cursor_grab;
pub use input::CursorGrabState;
pub use input::InputSnapshot;
pub use input::Key;
pub use input::MouseDelta;
pub use input::WindowState;
pub use look::player_look;
pub use motion::player_move;
pub use player::setup_player;
pub use player::CameraTransform;
pub use player::Controller;
pub use player::PlayerPlugin;
