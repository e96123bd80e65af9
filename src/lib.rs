pub mod cache;
pub mod dispatch;
pub mod gateway;
pub mod permissions;
pub mod session;
