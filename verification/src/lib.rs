pub mod text;
pub mod ini;
pub mod config;
pub mod server_seed;
pub mod seeder;
pub mod game;
pub mod servers;
pub mod updater;
pub mod process;
pub mod form;
pub mod schedule;
pub mod input;
pub mod join;
pub mod launch;
