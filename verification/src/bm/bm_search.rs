pub mod adapt;
pub mod reduction;
pub mod threshold;
pub mod search;
pub mod see;
pub mod tactics;
pub mod threats;
pub mod fail_cache;
pub mod move_entry;
pub mod move_gen;
pub mod q_node;
pub mod scored_list;
