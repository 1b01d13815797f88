pub mod cli;
pub mod command;
pub mod counter;
pub mod counts;
pub mod render;
