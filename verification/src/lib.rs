//! A single-node interpreter for a small fictional microcontroller.
//!
//! The node holds processor state (accumulator, auxiliary register, program
//! counter, conditional-execution flags), decodes one instruction at a time,
//! mutates state accordingly, and signals when it must suspend (a timed
//! sleep, or waiting on an external input pin). All arithmetic saturates
//! into the fixed range [-999, 999].

pub mod micro;
