pub mod eval_info;
pub mod score;
pub mod draw_oracle;
pub mod evaluator;
