pub mod event;
pub mod terminal_input;
pub mod terminal_input_laws;
