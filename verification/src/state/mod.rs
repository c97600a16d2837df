pub mod machine;
pub mod transition;
pub mod error;
