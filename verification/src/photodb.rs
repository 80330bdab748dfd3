//! PhotoDB/ArtworkDB: Apple's binary chunk database (`MHFD` → `MHSD` → …
//! → `MHNI`) that maps thumbnail format IDs to byte ranges of `.ithmb` files.

pub mod parser;
pub mod tree;
pub mod types;
