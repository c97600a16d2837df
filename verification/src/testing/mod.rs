pub mod debug;
pub mod assert_html;
pub mod capability;
pub mod route;
pub mod action;
pub mod state;
pub mod snapshot;
