//! The simulation engine of a terminal snake game for one or two local
//! players: the input event queue, the movement, growth and collision
//! rules, the steering policies, the per-tick round state machine, and
//! the double-buffered display grid it composes each frame into.
//!
//! Every function here carries a contract checked by Verus. The thin
//! shell around the engine — argument parsing, raw terminal mode, the
//! input-polling thread, pacing sleeps and the rendering sink — lives
//! outside the library and only calls into it.

pub mod events;
pub mod game;
pub mod screen_buffer;
pub mod snake;
