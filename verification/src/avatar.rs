//! A user whose profile picture is shown.
//!
//! The user came either from the chat platform or from the game's own
//! account system; either way the record carries a display name and the
//! picture's address.

use vstd::prelude::*;

verus! {

/// Whose avatar is shown, and where its picture lives.
#[derive(Debug, PartialEq, Eq)]
pub enum AvatarUser {
    Discord { name: String, url: String },
    Osu { name: String, url: String },
}

impl AvatarUser {
    /// The display name, whichever side the user came from.
    pub open spec fn spec_name(self) -> Seq<char> {
        match self {
            AvatarUser::Discord { name, .. } => name@,
            AvatarUser::Osu { name, .. } => name@,
        }
    }

    /// The picture address, whichever side the user came from.
    pub open spec fn spec_url(self) -> Seq<char> {
        match self {
            AvatarUser::Discord { url, .. } => url@,
            AvatarUser::Osu { url, .. } => url@,
        }
    }

    /// The display name.
    pub fn name(&self) -> (r: &str)
        ensures
            r@ == self.spec_name(),
    {
        match self {
            AvatarUser::Discord { name, .. } => name.as_str(),
            AvatarUser::Osu { name, .. } => name.as_str(),
        }
    }

    /// The picture address.
    pub fn url(&self) -> (r: &str)
        ensures
            r@ == self.spec_url(),
    {
        match self {
            AvatarUser::Discord { url, .. } => url.as_str(),
            AvatarUser::Osu { url, .. } => url.as_str(),
        }
    }
}

} // verus!
