pub mod cecp_adapter;
pub mod fen_kings;
