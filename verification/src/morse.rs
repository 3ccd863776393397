//! A Morse machine: a tape that records characters, a code table, and an
//! emitter that plays the tape back as timed signals.

pub mod code;
pub mod control;
pub mod emitter;
pub mod machine;
pub mod tape;

pub use self::code::{Code, Sequence, Symbols};
pub use self::control::{ControlSeq, Dispatcher};
pub use self::emitter::{Emitter, EmitterKind, EmitterOp, Signal, Time};
pub use self::machine::Machine;
pub use self::tape::CircularBuffer;
