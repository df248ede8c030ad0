//! A watcher of the newest niconico videos with a tag: it remembers the
//! videos it has seen and decides which to announce.
use vstd::prelude::*;

pub mod text;
pub mod video;
pub mod logger;
pub mod search;
pub mod config;
pub mod discord;
pub mod misskey;
pub mod schedule;
pub mod model;

verus! {

} // verus!
