//! Member syncing, visual scripting and server logging for the mellow
//! Discord bot, with the decisions proved correct against their contracts.
pub mod text;
pub mod visual_scripting;
pub mod model;
pub mod syncing;
pub mod server;
pub mod patreon;
pub mod commands;
pub mod signature;
pub mod onboarding;
pub mod interaction;
