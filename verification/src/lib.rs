//! Verified core of a touch-driven image viewer: a multi-touch gesture
//! recogniser and a checkerboard blob-image rasteriser with its result store.

pub mod blob;
pub mod touch;
