pub mod escape;
pub mod html;
pub mod context;
pub mod render;
pub mod attrs;
pub mod page;
pub mod error;
