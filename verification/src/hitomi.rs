//! The hitomi backend's plain data: gallery kinds and the tag taxonomy.

pub mod tag;
