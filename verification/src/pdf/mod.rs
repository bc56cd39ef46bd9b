pub mod kittyv2;
pub mod synctex;
pub mod synctex_laws;
