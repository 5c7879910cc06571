pub mod accounts;
pub mod bridge;
pub mod broker;
pub mod command;
pub mod compositor;
pub mod encoder;
pub mod frames;
pub mod gpu;
pub mod keymap;
pub mod keys;
pub mod login;
pub mod login_ui;
pub mod modifiers;
pub mod nested;
pub mod numbers;
pub mod outputs;
pub mod paths;
pub mod pipeline;
pub mod render;
pub mod runtime;
pub mod sessions;
pub mod spawning;
pub mod text;
pub mod units;
pub mod viewer;
