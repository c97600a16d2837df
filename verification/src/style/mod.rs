pub mod tokens;
pub mod theme;
pub mod css;
pub mod components;
