//! A byte buffer for disk and network I/O.
//!
//! [`Buffer`] unifies four origins of memory behind one value type:
//! an aligned allocation, a plain allocation, a borrowed mutable region and a
//! borrowed immutable region. Length and capacity are packed together with the
//! `owned` and `mutable` flags into two 32-bit fields, so neither may reach
//! [`MAX_BUFFER_SIZE`]. The capacity of a buffer is fixed when it is made.
//!
//! [`compress`] holds a compression interface over the byte ranges that a
//! buffer lends out, and LZ4 as one method behind it.
pub mod buffer;
pub mod compress;
pub mod packed;
pub mod utils;

pub use buffer::{Buffer, MAX_BUFFER_SIZE, MIN_ALIGN};
pub use utils::{is_all_zero, rand_buffer, safe_copy, set_zero};
