//! Wire codecs, command grammars and state machines of three instrument
//! drivers: a PLC reached over ADS, a robot arm reached over RTDE, and a USB
//! data-acquisition board.
//!
//! Everything here computes on plain values. Sockets, threads, clocks and
//! floating-point arithmetic belong to the program around the library; a
//! floating-point number appears here only as the integer that holds its
//! IEEE-754 bits.

pub mod bytes;
pub mod daq;
pub mod ieee;
pub mod numeral;
pub mod param;
pub mod seqs;
pub mod text;
pub mod twincat;
pub mod ur;
