pub mod event;
pub mod fragment;
pub mod stream;
pub mod channel;
pub mod runtime;
