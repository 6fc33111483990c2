//! Plain request and response shapes of guild administration.

use vstd::prelude::*;

verus! {

/// A guild role definition.
#[derive(Debug, Clone, PartialEq, Eq)]
pub struct Role {
    /// The role's index within its guild, its stable identifier.
    pub name_index: i32,
    /// Display name.
    pub name: String,
    /// Guild-wide permission strings this role grants.
    pub permissions: Vec<String>,
    /// Free-text description.
    pub description: String,
}

/// RSVP tallies of a guild event.
#[derive(Debug, Clone, Copy, PartialEq, Eq, Structural)]
pub struct RsvpCounts {
    /// `going` responses.
    pub going: i64,
    /// `maybe` responses.
    pub maybe: i64,
    /// `not_going` responses.
    pub not_going: i64,
}

/// A partial update of a guild's metadata; `None` leaves a field as it is.
#[derive(Debug, Clone, PartialEq, Eq, Default)]
pub struct GuildUpdate<'a> {
    /// New display name.
    pub name: Option<&'a str>,
    /// New tag.
    pub tag: Option<&'a str>,
    /// New description.
    pub description: Option<&'a str>,
    /// New message of the day; `Some("")` clears it.
    pub motd: Option<&'a str>,
    /// New banner; `Some("")` clears it.
    pub banner: Option<&'a str>,
    /// New icon; `Some("")` clears it.
    pub icon: Option<&'a str>,
    /// Whether the guild is recruiting.
    pub recruiting: Option<bool>,
    /// Whether the guild is publicly browsable.
    pub public: Option<bool>,
}

/// A partial update of a channel; `None` leaves a field as it is.
#[derive(Debug, Clone, PartialEq, Eq, Default)]
pub struct ChannelUpdate<'a> {
    /// The channel's name, always resent.
    pub name: &'a str,
    /// Whether only announcements may be posted.
    pub announcement_only: Option<bool>,
    /// New topic; `Some("")` clears it.
    pub topic: Option<&'a str>,
    /// Whether the channel is public.
    pub public: Option<bool>,
}

/// A partial update of an identity's own profile; `None` leaves a field as
/// it is, `Some("")` clears a text field and `Some(vec![])` a list.
#[derive(Debug, Clone, PartialEq, Eq, Default)]
pub struct ProfileUpdate<'a> {
    /// New display name (a globally unique handle).
    pub display_name: Option<&'a str>,
    /// New avatar URL.
    pub avatar_url: Option<&'a str>,
    /// New bio.
    pub bio: Option<&'a str>,
    /// New favorite genres; each must be a known genre.
    pub favorite_genres: Option<Vec<String>>,
    /// New pronouns.
    pub pronouns: Option<&'a str>,
    /// New banner URL.
    pub banner_url: Option<&'a str>,
    /// New status line.
    pub status: Option<&'a str>,
    /// New links.
    pub links: Option<Vec<String>>,
    /// New time zone.
    pub timezone: Option<&'a str>,
    /// New theme color.
    pub theme_color: Option<&'a str>,
    /// New location.
    pub location: Option<&'a str>,
}

} // verus!
