pub mod art;
pub mod config;
pub mod db;
pub mod discord;
pub mod safety;
pub mod utils;
pub mod wit;
