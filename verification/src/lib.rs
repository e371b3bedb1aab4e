pub mod cli;
pub mod config;
pub mod db;
pub mod deploy;
pub mod environment;
pub mod error;
pub mod health;
pub mod model;
pub mod path;
pub mod pattern;
pub mod process;
pub mod release;
pub mod stamp;
pub mod text;
pub mod web;
