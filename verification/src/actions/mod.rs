pub mod urlcode;
pub mod form;
pub mod field;
pub mod numeric;
pub mod validator;
pub mod error;
pub mod action;
pub mod csrf;
pub mod components;
