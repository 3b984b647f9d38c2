//! A network client core for fetching content through a censorship-affected
//! network path.
//!
//! The heart of the crate is [`detour`]: a byte-stream write state machine
//! that splits an outgoing TLS ClientHello record into two smaller TLS
//! records, so that no single record on the wire carries the complete,
//! inspectable ClientHello. The remaining modules hold the plain data the
//! surrounding client works with: cookies, tag maps and article metadata.

pub mod detour;
pub mod ehentai;
pub mod encode;
pub mod explorer;
pub mod hitomi;
pub mod text;
