pub mod add_liquidity;
pub mod constants;
pub mod errors;
pub mod initialize_pool;
pub mod math;
pub mod minidex;
pub mod remove_liquidity;
pub mod setup;
pub mod state;
pub mod swap;
pub mod utils;
