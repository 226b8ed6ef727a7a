pub mod client;
pub mod config;
pub mod decimal;
pub mod etcd;
pub mod message;
pub mod result;
pub mod state;
pub mod text;
pub mod token;
pub mod user_relationship;
pub mod ws;
