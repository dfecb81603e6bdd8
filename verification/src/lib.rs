pub mod bm;
pub mod datagen;
pub mod filter;
