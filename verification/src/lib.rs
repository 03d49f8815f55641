pub mod big_num;
pub mod config;
pub mod error;
pub mod full_math;
pub mod instruction;
pub mod liquidity_math;
pub mod pool;
pub mod position;
pub mod tick;
pub mod tick_array;
pub mod tick_math;
