//! The wire format. A message is one Cap'n Proto struct tree laid out in a
//! single segment (`schema`), behind a segment table (`frame`), in the packed
//! stream encoding (`packing`). One datagram carries one message.

pub mod error;
pub mod frame;
pub mod le;
pub mod packing;
pub mod schema;
