//! Backpack: the verified core of a file hosting service.
pub mod sonyflake;
pub mod text;
pub mod multipart;
pub mod internal;
pub mod models;
pub mod sqlite;
pub mod config;
pub mod database;
pub mod entity;
