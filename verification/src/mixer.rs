//! Data models of the stream-platform collaborator.
//!
//! Plain records of what the platform reports about channels, users and
//! games. The library only carries these values; fetching and decoding
//! them is the surrounding application's business.

use vstd::prelude::*;

verus! {

/// An error reported by the platform.
#[derive(Debug, PartialEq, Eq)]
pub struct MixerError {
    pub id: u16,
    pub message: String,
}

/// A linked picture resource.
#[derive(Debug, PartialEq, Eq)]
pub struct Resource {
    pub id: u64,
    pub url: String,
}

/// The platform's account behind a channel.
#[derive(Debug, PartialEq, Eq)]
pub struct User {
    pub id: u64,
    pub level: u64,
    pub username: String,
    pub experience: u64,
    pub avatar_url: Option<String>,
}

/// The game a channel is playing.
#[derive(Debug, PartialEq, Eq)]
pub struct GameType {
    pub id: u64,
    pub name: String,
    pub cover_url: Option<String>,
    pub background_url: Option<String>,
}

/// One channel of the platform.
#[derive(Debug, PartialEq, Eq)]
pub struct Channel {
    pub id: u64,
    pub user_id: u64,
    pub name: String,
    pub user: User,
    pub online: bool,
    pub title: String,
    pub banner_url: Option<String>,
    pub thumbnail: Option<Resource>,
    pub cover: Option<Resource>,
    pub badge: Option<Resource>,
    pub game: Option<GameType>,
}

} // verus!
