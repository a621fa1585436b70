pub mod path;
pub mod scope;
pub mod store;
pub mod backend;
pub mod lock;
