//! Turns a short program of moves and traps into a runnable executable image.
//!
//! [`assembly`] encodes instructions into machine code, [`elf`] lays out the image and
//! serializes its header record, [`resolve`] fills in the address of the data, which is
//! known only once the code has been measured, and [`writer`] composes the bytes of
//! the file.

pub mod assembly;
pub mod bytes;
pub mod elf;
pub mod resolve;
pub mod writer;
