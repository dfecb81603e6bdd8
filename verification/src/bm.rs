pub mod attacks;
pub mod bitboard;
pub mod bm_console;
pub mod bm_eval;
pub mod bm_runner;
pub mod bm_search;
pub mod bm_util;
pub mod cecp;
pub mod chess_types;
pub mod nnue;
