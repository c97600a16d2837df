pub mod text;
pub mod strmap;
pub mod markup;
pub mod actions;
pub mod style;
pub mod state;
pub mod live;
pub mod capabilities;
pub mod agent;
pub mod docs;
pub mod testing;
pub mod server;
pub mod cli;
