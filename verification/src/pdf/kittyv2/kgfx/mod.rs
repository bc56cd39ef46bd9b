pub mod lease;
pub mod pool;
pub mod tracker;
