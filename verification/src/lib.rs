pub mod book_manager;
pub mod inputs;
pub mod library_laws;
pub mod main_app;
pub mod markup;
pub mod markup_laws;
pub mod paths;
pub mod paths_laws;
pub mod pdf;
pub mod text;
pub mod text_laws;
