pub mod book;
pub mod database;
pub mod home;
pub mod submodels;
pub mod thumbnail;
