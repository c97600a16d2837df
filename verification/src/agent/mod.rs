pub mod task;
pub mod provider;
pub mod permissions;
pub mod review;
pub mod audit;
pub mod registry;
