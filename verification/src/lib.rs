//! Classic micro-benchmark kernels: recursive Fibonacci, Ackermann's
//! function, the Takeuchi function and its list-based variant, dense
//! array fill-and-sum loops, string concatenation, and a CRC-40
//! polynomial division. Each kernel is a pure (or locally mutating)
//! computation; its result is pinned down by a contract, and the
//! consistency checks the kernels perform on themselves are proved to
//! hold instead of being tested at run time.

pub mod ackermann;
pub mod arrays;
pub mod concat;
pub mod crc;
pub mod fib;
pub mod tak;
pub mod takl;
