//! What the bot reports to a server's logging channel.
pub mod logging;
pub mod settings;
