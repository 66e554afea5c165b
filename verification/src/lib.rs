//! Fixed-capacity, heap-bound-free text buffers.
//!
//! A [`StaticString<N>`] holds at most `N` bytes and its contents are always
//! valid UTF-8. Every mutation is capacity-checked: an operation that would
//! make the buffer longer than `N` fails with
//! [`StaticStringError::CapacityExceeded`] and leaves the buffer unchanged.
//! Values of any displayable type can be rendered into such a buffer through
//! the formatting entry point [`StaticString::format`].

mod buffer;
mod render;

pub use buffer::all_ascii;
pub use buffer::capacity_error_text;
pub use buffer::lemma_ascii_bytes_valid_utf8;
pub use buffer::lemma_text_round_trip;
pub use buffer::StaticString;
pub use buffer::StaticStringError;
pub use render::ToStaticString;
