//! The persisted record types: users, their overlay settings, channel
//! admins, and uploaded assets.
//!
//! Only the values and the builders that shape them live here; reading
//! and writing the database is outside the library.

use vstd::prelude::*;

verus! {

use crate::twitch::TwitchUser;

/// A known broadcaster account.
#[derive(Debug, PartialEq, Eq)]
pub struct User {
    pub username: String,
}

impl User {
    pub fn new(username: &str) -> (r: Self)
        ensures
            r.username@ == username@,
    {
        Self { username: username.to_owned() }
    }

    /// The account a signed-in identity maps to.
    pub fn from_twitch(value: TwitchUser) -> (r: Self)
        ensures
            r.username == value.login,
    {
        Self { username: value.login }
    }
}

/// A broadcaster's overlay settings as persisted.
#[derive(Debug, PartialEq, Eq)]
pub struct UserSettings {
    pub username: String,
    pub background_opacity: i32,
    pub fps_target: i32,
}

/// Settings as a client submits them, not yet tied to an owner. The
/// narrow integer types bound what a client can ask for.
#[derive(Debug, PartialEq, Eq)]
pub struct UnownedUserSettings {
    pub background_opacity: u8,
    pub fps_target: u16,
}

impl UnownedUserSettings {
    /// The submitted settings bound to their owning account.
    pub fn with_owner(self, owner: &User) -> (r: UserSettings)
        ensures
            r.username == owner.username,
            r.background_opacity == self.background_opacity as i32,
            r.fps_target == self.fps_target as i32,
    {
        UserSettings {
            username: owner.username.clone(),
            background_opacity: self.background_opacity as i32,
            fps_target: self.fps_target as i32,
        }
    }
}

impl Default for UnownedUserSettings {
    /// A gentle default: a backdrop at forty percent opacity, sixty
    /// frames per second.
    fn default() -> (r: Self)
        ensures
            r.background_opacity == 40,
            r.fps_target == 60,
    {
        UnownedUserSettings { background_opacity: 40, fps_target: 60 }
    }
}

/// The grant that lets one account manage another's channel.
#[derive(Debug, PartialEq, Eq)]
pub struct ChannelAdmin {
    pub username: String,
    pub broadcaster_username: String,
}

impl ChannelAdmin {
    pub fn new(user: &User, broadcaster: &User) -> (r: Self)
        ensures
            r.username == user.username,
            r.broadcaster_username == broadcaster.username,
    {
        Self {
            username: user.username.clone(),
            broadcaster_username: broadcaster.username.clone(),
        }
    }
}

/// An uploaded overlay asset as persisted: where it landed on disk, what
/// it was called, its digest, its media type, and whose channel owns it.
#[derive(Debug, PartialEq, Eq)]
pub struct Asset {
    pub local_filename: String,
    pub original_filename: String,
    pub checksum: String,
    pub content_type: String,
    pub broadcaster_username: String,
}

/// The slice of an asset a viewer may see.
#[derive(Debug, PartialEq, Eq)]
pub struct UserFacingAsset {
    pub filename: String,
    pub content_type: String,
}

impl UserFacingAsset {
    /// What of a stored asset is served to viewers: its local name and
    /// media type, nothing of its provenance or owner.
    pub fn from_asset(value: Asset) -> (r: Self)
        ensures
            r.filename == value.local_filename,
            r.content_type == value.content_type,
    {
        Self { filename: value.local_filename, content_type: value.content_type }
    }
}

/// An uploaded asset before it is tied to a channel.
#[derive(Debug, PartialEq, Eq)]
pub struct UnownedAsset {
    pub local_filename: String,
    pub original_filename: String,
    pub checksum: String,
    pub content_type: String,
}

impl UnownedAsset {
    /// The upload bound to the broadcaster whose channel owns it.
    pub fn with_ownership(self, owner_username: String) -> (r: Asset)
        ensures
            r.local_filename == self.local_filename,
            r.original_filename == self.original_filename,
            r.checksum == self.checksum,
            r.content_type == self.content_type,
            r.broadcaster_username == owner_username,
    {
        Asset {
            local_filename: self.local_filename,
            original_filename: self.original_filename,
            checksum: self.checksum,
            content_type: self.content_type,
            broadcaster_username: owner_username,
        }
    }
}

} // verus!
