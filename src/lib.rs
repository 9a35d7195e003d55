//! Codec for IDO game-asset containers: a fixed opaque header followed by a
//! zlib-compressed payload that holds either EUC-KR markup text or a raw
//! image asset. A second codec reads the fixed-width shop database records.

pub mod classify;
pub mod error;
pub mod header;
pub mod compression;
pub mod transcode;
pub mod text;
pub mod container;
pub mod shop_db;
