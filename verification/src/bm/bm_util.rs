pub mod access;
pub mod c_hist;
pub mod c_move;
pub mod ch_table;
pub mod counter_move;
pub mod endgame;
pub mod eval;
pub mod eval_table;
pub mod frc;
pub mod h_table;
pub mod history;
pub mod lookup;
pub mod move_table;
pub mod position;
pub mod prune_table;
pub mod scaling;
pub mod t_table;
pub mod tactics;
pub mod threats;
pub mod window;
pub mod xor_set;
pub mod xor_t_table;
pub mod zobrist;
