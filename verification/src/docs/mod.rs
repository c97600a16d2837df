pub mod spec;
pub mod site;
pub mod render;
pub mod openapi;
