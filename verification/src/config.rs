//! The settings of the watcher, as `config.toml` holds them.
use vstd::prelude::*;

verus! {

/// The whole configuration.
#[derive(PartialEq, Eq, Debug)]
pub struct Config {
    /// The tag whose videos are watched.
    pub keyword: String,
    /// Where set, nothing is posted anywhere.
    pub dryrun: bool,
    /// The cron expression of when the search is run.
    pub cron: String,
    pub discord: Option<DiscordConfig>,
    pub misskey: Option<MisskeyConfig>,
}

/// Where and as whom to post on Discord.
#[derive(PartialEq, Eq, Debug)]
pub struct DiscordConfig {
    pub token: String,
    /// The ids of the channels posted to.
    pub chid: Vec<u64>,
    /// What the bot's status says it is watching.
    pub bot_watching_target: String,
}

/// The Misskey access tokens.
#[derive(PartialEq, Eq, Debug)]
pub struct MisskeyConfig {
    pub tokens: Vec<String>,
}

} // verus!
