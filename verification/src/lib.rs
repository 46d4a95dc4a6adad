//! Static HTML rendering through a pool of external script-runtime workers,
//! with verified failure recovery.
//!
//! The crate models the render execution subsystem of an incremental
//! dev-server: a wire protocol spoken with a worker process, a pool of warm
//! workers, stack-trace recovery against a recorded source mapping, a fallback
//! error page, and the orchestrating state machine that ties them together.
//! All text and wire data is carried as byte vectors.

pub mod escape;
pub mod fallback;
pub mod numeral;
pub mod pool;
pub mod protocol;
pub mod render;
pub mod trace;
pub mod text;
