//! Blinkie: Morse code for a small board. Characters are recorded on a
//! tape and played back as timed signals, either on an indicator line or
//! as text on a console.

pub mod morse;
