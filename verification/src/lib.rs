mod text;
mod encoding;
pub mod api;
pub mod config;
pub mod json;
pub mod model;
pub mod mock;
pub mod oauth;
pub mod client;
pub mod cli;
pub mod gui;
pub mod dialog;

pub use api::Jira;
pub use client::JiraClient;
pub use config::{Auth, JiraConfig};
pub use mock::MockJira;
pub use model::{Comment, Issue, Transition, User};
