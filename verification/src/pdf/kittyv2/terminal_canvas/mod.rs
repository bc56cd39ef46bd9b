pub mod probe;
