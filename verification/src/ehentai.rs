//! The e-hentai backend's plain data: article metadata and comments, the
//! cookie jar, and the gallery tag taxonomy.

pub mod article;
pub mod cookie;
pub mod tag;
