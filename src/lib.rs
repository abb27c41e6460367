pub mod aggregate;
pub mod calendar;
pub mod db;
pub mod error;
pub mod handlers;
pub mod models;
pub mod slots;
pub mod table;
