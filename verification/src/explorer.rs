//! Site-specific exploration data kept apart from the transport core.

pub mod ehentai;
