pub mod chapters;
pub mod chapters_laws;
pub mod drawing;
pub mod epub_actions;
pub mod event_laws;
pub mod event_loop;
pub mod global_actions;
pub mod help_bar;
pub mod jumps;
pub mod jumps_laws;
pub mod keys;
pub mod keys_laws;
pub mod library_context;
pub mod lookup;
pub mod mouse;
pub mod notices;
pub mod opening;
pub mod opening_laws;
pub mod pdf_events;
pub mod pdf_laws;
pub mod pdf_toc;
pub mod reading_laws;
pub mod search_text;
pub mod search_text_laws;
pub mod source_laws;
pub mod state;
pub mod synctex_source;
pub mod view_laws;
pub mod windows;
pub mod windows_laws;
