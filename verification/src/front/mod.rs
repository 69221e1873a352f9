//! The state and texts of the web front end's components. The components
//! themselves, which draw HTML, live with the front end program.
pub mod app;
pub mod changing_text;
pub mod home_app;
pub mod route;
pub mod scene;
pub mod group;
pub mod home;
