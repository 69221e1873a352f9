//! The decisions of the web server's routes. The routes themselves, which
//! answer HTTP requests, live with the program.
pub mod create_group;
pub mod static_files;
pub mod config;
