pub mod basic_eval;
pub mod eval;
pub mod eval_consts;
pub mod eval_parts;
pub mod evaluator;
pub mod eval_terms;
