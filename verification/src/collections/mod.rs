//! Collections of the front end.

pub mod ring_buffer;

pub use ring_buffer::RingBufferedIterator;
