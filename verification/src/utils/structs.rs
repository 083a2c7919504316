//! The events that are delivered to connected clients.

use vstd::prelude::*;
use crate::routes::structs::{
    ReturnedGuild, ReturnedGuildView, ReturnedUser, ReturnedUserMe, ReturnedUserMeView,
    ReturnedUserView,
};

verus! {

/// View of an [`SSEEvent`].
pub struct SSEEventView {
    pub event: Seq<char>,
    pub user: Option<ReturnedUserMeView>,
    pub guild: Option<ReturnedGuildView>,
    pub guild_id: Option<Seq<char>>,
    pub role: Option<Seq<char>>,
    pub member: Option<ReturnedUserView>,
    pub channel: Option<Seq<char>>,
    pub message: Option<Seq<char>>,
    pub invite: Option<Seq<char>>,
}

impl SSEEventView {
    /// Number of payload fields that are populated.
    pub open spec fn payloads(self) -> nat {
        let user: nat = if self.user is Some { 1 } else { 0 };
        let guild: nat = if self.guild is Some { 1 } else { 0 };
        let guild_id: nat = if self.guild_id is Some { 1 } else { 0 };
        let role: nat = if self.role is Some { 1 } else { 0 };
        let member: nat = if self.member is Some { 1 } else { 0 };
        let channel: nat = if self.channel is Some { 1 } else { 0 };
        let message: nat = if self.message is Some { 1 } else { 0 };
        let invite: nat = if self.invite is Some { 1 } else { 0 };
        user + guild + guild_id + role + member + channel + message + invite
    }

    /// Whether the event can go on the wire: it carries exactly one payload.
    pub open spec fn deliverable(self) -> bool {
        self.payloads() == 1
    }

    /// The event of this kind that carries nothing yet.
    pub open spec fn bare(event: Seq<char>) -> SSEEventView {
        SSEEventView {
            event,
            user: None,
            guild: None,
            guild_id: None,
            role: None,
            member: None,
            channel: None,
            message: None,
            invite: None,
        }
    }
}

/// An event as it is delivered: its kind, and one payload.
#[derive(Debug)]
pub struct SSEEvent<'r> {
    pub event: &'r str,
    pub user: Option<&'r ReturnedUserMe>,
    pub guild: Option<&'r ReturnedGuild>,
    pub guild_id: Option<&'r str>,
    pub role: Option<&'r str>,
    pub member: Option<&'r ReturnedUser>,
    pub channel: Option<&'r str>,
    pub message: Option<&'r str>,
    pub invite: Option<&'r str>,
}

impl<'r> DeepView for SSEEvent<'r> {
    type V = SSEEventView;

    open spec fn deep_view(&self) -> SSEEventView {
        SSEEventView {
            event: self.event@,
            user: self.user.deep_view(),
            guild: self.guild.deep_view(),
            guild_id: self.guild_id.deep_view(),
            role: self.role.deep_view(),
            member: self.member.deep_view(),
            channel: self.channel.deep_view(),
            message: self.message.deep_view(),
            invite: self.invite.deep_view(),
        }
    }
}

impl<'r> View for SSEEvent<'r> {
    type V = SSEEventView;

    open spec fn view(&self) -> SSEEventView {
        self.deep_view()
    }
}

impl Default for SSEEvent<'_> {
    /// The event of unknown kind that carries nothing.
    fn default() -> (event: Self)
        ensures
            event@ == SSEEventView::bare("unknown"@),
    {
        SSEEvent {
            event: "unknown",
            user: None,
            guild: None,
            guild_id: None,
            role: None,
            member: None,
            channel: None,
            message: None,
            invite: None,
        }
    }
}

impl<'r> SSEEvent<'r> {
    /// The event of this kind that carries nothing yet.
    pub fn bare(event: &'r str) -> (bare: Self)
        ensures
            bare@ == SSEEventView::bare(event@),
    {
        SSEEvent {
            event,
            user: None,
            guild: None,
            guild_id: None,
            role: None,
            member: None,
            channel: None,
            message: None,
            invite: None,
        }
    }

    /// Tells a user that they are now a member of the guild.
    pub fn guild_joined(guild: &'r ReturnedGuild) -> (event: Self)
        ensures
            event@ == (SSEEventView { guild: Some(guild@), ..SSEEventView::bare("guildJoined"@) }),
            event@.deliverable(),
    {
        SSEEvent { guild: Some(guild), ..SSEEvent::bare("guildJoined") }
    }

    /// Tells a member that the guild's profile or ownership changed.
    pub fn guild_edited(guild: &'r ReturnedGuild) -> (event: Self)
        ensures
            event@ == (SSEEventView { guild: Some(guild@), ..SSEEventView::bare("guildEdited"@) }),
            event@.deliverable(),
    {
        SSEEvent { guild: Some(guild), ..SSEEvent::bare("guildEdited") }
    }

    /// Tells a member that the guild is gone, or that they are out of it.
    pub fn guild_left(guild_id: &'r str) -> (event: Self)
        ensures
            event@ == (SSEEventView { guild_id: Some(guild_id@), ..SSEEventView::bare("guildLeft"@) }),
            event@.deliverable(),
    {
        SSEEvent { guild_id: Some(guild_id), ..SSEEvent::bare("guildLeft") }
    }

    /// Tells a user that their own account changed.
    pub fn user_edited(user: &'r ReturnedUserMe) -> (event: Self)
        ensures
            event@ == (SSEEventView { user: Some(user@), ..SSEEventView::bare("userEdited"@) }),
            event@.deliverable(),
    {
        SSEEvent { user: Some(user), ..SSEEvent::bare("userEdited") }
    }

    /// Tells those who manage bans that the ban on a user was lifted.
    pub fn member_unbanned(member: &'r ReturnedUser) -> (event: Self)
        ensures
            event@ == (SSEEventView { member: Some(member@), ..SSEEventView::bare("memberUnbanned"@) }),
            event@.deliverable(),
    {
        SSEEvent { member: Some(member), ..SSEEvent::bare("memberUnbanned") }
    }

    /// Whether the event can go on the wire: it carries exactly one payload.
    pub fn is_deliverable(&self) -> (deliverable: bool)
        ensures
            deliverable == self@.deliverable(),
    {
        let mut payloads: u8 = 0;
        if self.user.is_some() {
            payloads += 1;
        }
        if self.guild.is_some() {
            payloads += 1;
        }
        if self.guild_id.is_some() {
            payloads += 1;
        }
        if self.role.is_some() {
            payloads += 1;
        }
        if self.member.is_some() {
            payloads += 1;
        }
        if self.channel.is_some() {
            payloads += 1;
        }
        if self.message.is_some() {
            payloads += 1;
        }
        if self.invite.is_some() {
            payloads += 1;
        }
        payloads == 1
    }
}

} // verus!
